//! The execution engine: registers, stack, instruction memory, label table,
//! and the input and output streams of the machine.

use vstd::prelude::*;
use crate::decode::{decode_lines, instrs, labels_of, load_inst, load_label, split_code, tokenize};
use crate::error::{Error, Fault, outcome};
use crate::label::LabelTable;
use crate::opcode::{Instr, Opcode};
use crate::text::{decimal, int_text, parse_i32, push_decimal, slice_chars, string_of, trim, trimmed, chars_of};

verus! {

/// The capacity of the instruction memory.
pub const VM_INST_MEMORY_SIZE: usize = 10000;

/// The number of cells of the stack.
pub const VM_STACK_SIZE: usize = 10000;

/// The most steps that `run_until_halt` takes in one call.
pub const RUN_STEP_LIMIT: u64 = 0xffff_ffff_ffff_ffff;

/// Registers of the machine.
#[derive(Debug, Clone, Copy)]
pub struct Registers {
    /// Program counter: the index of the next instruction.
    pub pc: usize,
    /// Stack pointer: the index of the top cell of the stack
    /// (`VM_STACK_SIZE` when the stack is empty).
    pub sp: usize,
    /// Frame pointer: the base of the current stack frame.
    pub fp: usize,
}

/// The state of a machine, as the contracts speak of it.
pub struct Machine {
    pub inst: Seq<Instr>,
    pub labels: Map<Seq<char>, nat>,
    pub stack: Seq<i32>,
    pub pc: nat,
    pub sp: nat,
    pub fp: nat,
    pub halted: bool,
    /// Input not read yet.
    pub input: Seq<char>,
    /// No more input will come after `input`.
    pub input_closed: bool,
    /// An `rd` has written its prompt and waits for a line of input.
    pub awaiting_input: bool,
    /// Everything written so far.
    pub output: Seq<char>,
}

/// A stack whose cells all hold 0.
pub open spec fn zero_stack() -> Seq<i32> {
    Seq::new(VM_STACK_SIZE as nat, |i: int| 0i32)
}

/// `t` is the index of a stack cell.
pub open spec fn in_stack(t: int) -> bool {
    0 <= t < VM_STACK_SIZE
}

/// `m` with PC at the next instruction.
pub open spec fn advance(m: Machine) -> Machine {
    Machine { pc: ((m.pc + 1) % (VM_INST_MEMORY_SIZE as nat)) as nat, ..m }
}

/// `m` with PC at address `a`, taken modulo the memory's capacity.
pub open spec fn jump(m: Machine, a: nat) -> Machine {
    Machine { pc: (a % (VM_INST_MEMORY_SIZE as nat)) as nat, ..m }
}

/// `m` with `v` pushed (SP decremented, then the cell at SP written).
pub open spec fn pushed(m: Machine, v: i32) -> Machine {
    Machine { sp: (m.sp - 1) as nat, stack: m.stack.update(m.sp - 1, v), ..m }
}

/// `m` with the top cell popped.
pub open spec fn popped(m: Machine) -> Machine {
    Machine { sp: m.sp + 1, ..m }
}

/// A step that succeeds, leaving `m`.
pub open spec fn done(m: Machine) -> (Machine, Result<(), Fault>) {
    (m, Ok(()))
}

fn arith(op: &Opcode, a: i32, b: i32) -> (r: Option<i32>)
    ensures
        r == apply(op@, a, b),
{
    match op {
        Opcode::Add => a.checked_add(b),
        Opcode::Sub => a.checked_sub(b),
        Opcode::Mul => a.checked_mul(b),
        Opcode::Div => a.checked_div(b),
        Opcode::Mod => a.checked_rem(b),
        Opcode::Eq => Some(if a == b { 1i32 } else { 0i32 }),
        Opcode::Ne => Some(if a != b { 1i32 } else { 0i32 }),
        Opcode::Gt => Some(if a > b { 1i32 } else { 0i32 }),
        Opcode::Ge => Some(if a >= b { 1i32 } else { 0i32 }),
        Opcode::Lt => Some(if a < b { 1i32 } else { 0i32 }),
        Opcode::Le => Some(if a <= b { 1i32 } else { 0i32 }),
        _ => None,
    }
}

/// A step that fails with `f`, leaving `m`.
pub open spec fn fail(m: Machine, f: Fault) -> (Machine, Result<(), Fault>) {
    (m, Err(f))
}

/// Pushes `v` and moves to the next instruction.
pub open spec fn push_step(m: Machine, v: i32) -> (Machine, Result<(), Fault>) {
    if m.sp == 0 {
        fail(m, Fault::StackOverflow)
    } else {
        done(advance(pushed(m, v)))
    }
}

/// Copies the top cell into cell `t` (`storel`, `storet`).
pub open spec fn store_step(m: Machine, t: int) -> (Machine, Result<(), Fault>) {
    if !in_stack(t) {
        fail(m, Fault::StackOutOfBound)
    } else if m.sp >= VM_STACK_SIZE {
        fail(m, Fault::StackUnderflow)
    } else {
        done(advance(Machine { stack: m.stack.update(t, m.stack[m.sp as int]), ..m }))
    }
}

/// `call l`: pushes the return address and jumps to `l`; PC stays where it
/// is when the table does not hold `l`.
pub open spec fn call_step(m: Machine, l: Seq<char>) -> (Machine, Result<(), Fault>) {
    if m.sp == 0 {
        fail(m, Fault::StackOverflow)
    } else {
        let target = if m.labels.contains_key(l) {
            m.labels[l]
        } else {
            m.pc
        };
        done(jump(pushed(m, (m.pc + 1) as i32), target))
    }
}

/// `ret`: pops the return address into PC; a negative address fails with
/// `MemoryOutOfBound`, as an address outside the program.
pub open spec fn ret_step(m: Machine) -> (Machine, Result<(), Fault>) {
    if m.sp >= VM_STACK_SIZE {
        fail(m, Fault::StackUnderflow)
    } else if m.stack[m.sp as int] < 0 {
        fail(m, Fault::MemoryOutOfBound)
    } else {
        done(jump(popped(m), m.stack[m.sp as int] as nat))
    }
}

/// `enter`: pushes FP, then sets FP to SP.
pub open spec fn enter_step(m: Machine) -> (Machine, Result<(), Fault>) {
    if m.sp == 0 {
        fail(m, Fault::StackOverflow)
    } else {
        done(advance(Machine { fp: (m.sp - 1) as nat, ..pushed(m, m.fp as i32) }))
    }
}

/// `leave`: sets SP to FP, then pops FP; a popped value outside
/// `0..=VM_STACK_SIZE` fails with `StackOutOfBound`.
pub open spec fn leave_step(m: Machine) -> (Machine, Result<(), Fault>) {
    if m.fp >= VM_STACK_SIZE {
        fail(m, Fault::StackUnderflow)
    } else if m.stack[m.fp as int] < 0 || m.stack[m.fp as int] > VM_STACK_SIZE {
        fail(m, Fault::StackOutOfBound)
    } else {
        done(advance(Machine { sp: m.fp + 1, fp: m.stack[m.fp as int] as nat, ..m }))
    }
}

/// `mvsp n`: moves SP by `n`; a move past either end of the stack fails
/// with `StackOutOfBound`.
pub open spec fn mvsp_step(m: Machine, n: i32) -> (Machine, Result<(), Fault>) {
    if m.sp + n < 0 || m.sp + n > VM_STACK_SIZE {
        fail(m, Fault::StackOutOfBound)
    } else {
        done(advance(Machine { sp: (m.sp + n) as nat, ..m }))
    }
}

/// `jp l`.
pub open spec fn jp_step(m: Machine, l: Seq<char>) -> (Machine, Result<(), Fault>) {
    if !m.labels.contains_key(l) {
        fail(m, Fault::LabelNotFound(l))
    } else {
        done(jump(m, m.labels[l]))
    }
}

/// `jt l` (`on_zero` false) and `jf l` (`on_zero` true): the label is
/// resolved first, then a value is popped and decides.
pub open spec fn branch_step(m: Machine, l: Seq<char>, on_zero: bool) -> (Machine, Result<(), Fault>) {
    if !m.labels.contains_key(l) {
        fail(m, Fault::LabelNotFound(l))
    } else if m.sp >= VM_STACK_SIZE {
        fail(m, Fault::StackUnderflow)
    } else if (m.stack[m.sp as int] == 0) == on_zero {
        done(jump(popped(m), m.labels[l]))
    } else {
        done(advance(popped(m)))
    }
}

/// What a binary instruction computes from `a` (pushed first) and `b`;
/// `None` where the result is undefined or does not fit in `i32`.
pub open spec fn apply(i: Instr, a: i32, b: i32) -> Option<i32> {
    match i {
        Instr::Add => a.checked_add(b),
        Instr::Sub => a.checked_sub(b),
        Instr::Mul => a.checked_mul(b),
        Instr::Div => a.checked_div(b),
        Instr::Mod => a.checked_rem(b),
        Instr::Eq => Some(if a == b { 1i32 } else { 0i32 }),
        Instr::Ne => Some(if a != b { 1i32 } else { 0i32 }),
        Instr::Gt => Some(if a > b { 1i32 } else { 0i32 }),
        Instr::Ge => Some(if a >= b { 1i32 } else { 0i32 }),
        Instr::Lt => Some(if a < b { 1i32 } else { 0i32 }),
        Instr::Le => Some(if a <= b { 1i32 } else { 0i32 }),
        _ => None,
    }
}

/// A binary instruction: pops `t1`, pops `t2`, pushes `t2 OP t1`.
pub open spec fn binary_step(m: Machine, i: Instr) -> (Machine, Result<(), Fault>) {
    if m.sp + 1 >= VM_STACK_SIZE {
        fail(m, Fault::StackUnderflow)
    } else {
        match apply(i, m.stack[m.sp + 1int], m.stack[m.sp as int]) {
            None => fail(m, Fault::Arithmetic),
            Some(v) => done(advance(Machine { sp: m.sp + 1, stack: m.stack.update(m.sp + 1int, v), ..m })),
        }
    }
}

/// The length of the first line of `s`, line feed included, if `s` holds a
/// line feed.
pub open spec fn line_length(s: Seq<char>) -> Option<nat>
    decreases s.len(),
{
    if s.len() == 0 {
        None
    } else if s[0] == '\n' {
        Some(1)
    } else {
        match line_length(s.drop_first()) {
            Some(k) => Some(k + 1),
            None => None,
        }
    }
}

/// The length of the line that a read takes from the input: up to the
/// first line feed, or all of it once the input is closed.
pub open spec fn next_line(m: Machine) -> Option<nat> {
    match line_length(m.input) {
        Some(k) => Some(k),
        None => if m.input_closed {
            Some(m.input.len())
        } else {
            None
        },
    }
}

/// `rd`: writes the prompt `? ` (once), reads a line, and pushes the integer
/// it holds; waits, with PC unchanged, while no line has come.
pub open spec fn rd_step(m: Machine) -> (Machine, Result<(), Fault>) {
    let m1 = if m.awaiting_input {
        m
    } else {
        Machine { output: m.output + seq!['?', ' '], ..m }
    };
    match next_line(m1) {
        None => done(Machine { awaiting_input: true, ..m1 }),
        Some(k) => {
            let m2 = Machine { input: m1.input.skip(k as int), awaiting_input: false, ..m1 };
            match int_text(trim(m1.input.take(k as int))) {
                None => fail(m2, Fault::ParseInt),
                Some(v) => push_step(m2, v),
            }
        },
    }
}

/// `wr`: pops a value and writes it in decimal, then a space.
pub open spec fn wr_step(m: Machine) -> (Machine, Result<(), Fault>) {
    if m.sp >= VM_STACK_SIZE {
        fail(m, Fault::StackUnderflow)
    } else {
        done(advance(Machine {
            output: m.output + decimal(m.stack[m.sp as int] as int) + seq![' '],
            ..popped(m)
        }))
    }
}

/// What instruction `i` does to `m`.
pub open spec fn exec_instr(m: Machine, i: Instr) -> (Machine, Result<(), Fault>) {
    match i {
        Instr::Pushl(n) => if in_stack(m.fp + n) {
            push_step(m, m.stack[m.fp + n])
        } else {
            fail(m, Fault::StackOutOfBound)
        },
        Instr::Storel(n) => store_step(m, m.fp + n),
        Instr::Storet(n) => store_step(m, m.sp + n),
        Instr::Pushi(d) => push_step(m, d),
        Instr::Call(l) => call_step(m, l),
        Instr::Ret => ret_step(m),
        Instr::Enter => enter_step(m),
        Instr::Leave => leave_step(m),
        Instr::Mvsp(n) => mvsp_step(m, n),
        Instr::Jp(l) => jp_step(m, l),
        Instr::Jt(l) => branch_step(m, l, false),
        Instr::Jf(l) => branch_step(m, l, true),
        Instr::Rd => rd_step(m),
        Instr::Wr => wr_step(m),
        Instr::Wrln => done(advance(Machine { output: m.output.push('\n'), ..m })),
        Instr::Halt => done(Machine { halted: true, ..m }),
        _ => binary_step(m, i),
    }
}

/// One step of the machine: the instruction at PC, unless the machine has
/// halted or PC lies past the program.
pub open spec fn step_spec(m: Machine) -> (Machine, Result<(), Fault>) {
    if m.halted {
        fail(m, Fault::VmHalted)
    } else if m.pc >= m.inst.len() {
        fail(m, Fault::MemoryOutOfBound)
    } else {
        exec_instr(m, m.inst[m.pc as int])
    }
}

/// Steps until the machine halts, PC leaves the program, a step fails, an
/// `rd` waits for input, or `fuel` steps have run. Halting and leaving the
/// program end the run with success.
pub open spec fn run_spec(m: Machine, fuel: nat) -> (Machine, Result<(), Fault>)
    decreases fuel,
{
    if fuel == 0 {
        (m, Ok(()))
    } else {
        let (m2, r) = step_spec(m);
        match r {
            Ok(_) => if m2.awaiting_input {
                (m2, Ok(()))
            } else {
                run_spec(m2, (fuel - 1) as nat)
            },
            Err(Fault::VmHalted) => (m2, Ok(())),
            Err(Fault::MemoryOutOfBound) => (m2, Ok(())),
            Err(f) => (m2, Err(f)),
        }
    }
}

/// The machine after loading source text `text` into `m`: a new program and
/// label table, a zeroed stack, PC at 0, SP and FP at the bottom, running;
/// the streams are kept.
pub open spec fn load_spec(m: Machine, text: Seq<char>) -> Result<Machine, Fault> {
    let code = tokenize(text);
    match decode_lines(code) {
        Err(f) => Err(f),
        Ok(p) => if p.len() > VM_INST_MEMORY_SIZE {
            Err(Fault::MemoryOutOfBound)
        } else {
            Ok(Machine {
                inst: p,
                labels: labels_of(code),
                stack: zero_stack(),
                pc: 0,
                sp: VM_STACK_SIZE as nat,
                fp: VM_STACK_SIZE as nat,
                halted: false,
                awaiting_input: false,
                ..m
            })
        },
    }
}

/// An instance of the picoc machine.
pub struct PicocVm {
    inst_memory: Vec<Opcode>,
    stack: Vec<i32>,
    label_table: LabelTable,
    reg: Registers,
    is_halted: bool,
    input: Vec<char>,
    input_pos: usize,
    input_closed: bool,
    awaiting_input: bool,
    output: Vec<char>,
}

impl View for PicocVm {
    type V = Machine;

    closed spec fn view(&self) -> Machine {
        Machine {
            inst: instrs(self.inst_memory@),
            labels: self.label_table@,
            stack: self.stack@,
            pc: self.reg.pc as nat,
            sp: self.reg.sp as nat,
            fp: self.reg.fp as nat,
            halted: self.is_halted,
            input: self.input@.skip(self.input_pos as int),
            input_closed: self.input_closed,
            awaiting_input: self.awaiting_input,
            output: self.output@,
        }
    }
}

fn zeroed_stack() -> (r: Vec<i32>)
    ensures
        r@ == zero_stack(),
{
    let mut r: Vec<i32> = Vec::new();
    while r.len() < VM_STACK_SIZE
        invariant
            r@.len() <= VM_STACK_SIZE,
            forall|i: int| 0 <= i < r@.len() ==> r@[i] == 0,
        decreases VM_STACK_SIZE - r@.len(),
    {
        r.push(0);
    }
    assert(r@ =~= zero_stack());
    r
}

proof fn lemma_line_length(s: Seq<char>, k: int)
    requires
        0 <= k <= s.len(),
        forall|j: int| 0 <= j < k ==> s[j] != '\n',
        k == s.len() || s[k] == '\n',
    ensures
        line_length(s) == if k < s.len() {
            Some((k + 1) as nat)
        } else {
            None::<nat>
        },
    decreases k,
{
    if k > 0 {
        let t = s.drop_first();
        assert forall|j: int| 0 <= j < k - 1 implies t[j] != '\n' by {
            assert(t[j] == s[j + 1]);
        }
        lemma_line_length(t, k - 1);
    }
}

impl PicocVm {
    /// The machine's registers and stack are in range.
    pub closed spec fn wf(&self) -> bool {
        &&& self.stack@.len() == VM_STACK_SIZE
        &&& self.reg.sp <= VM_STACK_SIZE
        &&& self.reg.fp <= VM_STACK_SIZE
        &&& self.inst_memory@.len() <= VM_INST_MEMORY_SIZE
        &&& self.input_pos <= self.input@.len()
        &&& self.label_table.wf()
    }

    /// A machine with no program that reads `input` and writes to a buffer.
    pub fn new(input: &str) -> (r: PicocVm)
        ensures
            r.wf(),
            r@ == (Machine {
                inst: seq![],
                labels: Map::empty(),
                stack: zero_stack(),
                pc: 0,
                sp: VM_STACK_SIZE as nat,
                fp: VM_STACK_SIZE as nat,
                halted: false,
                input: input@,
                input_closed: true,
                awaiting_input: false,
                output: seq![],
            }),
    {
        let r = PicocVm {
            inst_memory: Vec::new(),
            stack: zeroed_stack(),
            label_table: LabelTable::new(),
            reg: Registers { pc: 0, sp: VM_STACK_SIZE, fp: VM_STACK_SIZE },
            is_halted: false,
            input: chars_of(input),
            input_pos: 0,
            input_closed: true,
            awaiting_input: false,
            output: Vec::new(),
        };
        assert(r@.inst =~= seq![]);
        assert(r@.input =~= input@);
        r
    }

    /// A machine with no program whose input is fed line by line with
    /// `feed_input` until `close_input`, and that writes to a buffer.
    pub fn interactive() -> (r: PicocVm)
        ensures
            r.wf(),
            r@ == (Machine {
                inst: seq![],
                labels: Map::empty(),
                stack: zero_stack(),
                pc: 0,
                sp: VM_STACK_SIZE as nat,
                fp: VM_STACK_SIZE as nat,
                halted: false,
                input: seq![],
                input_closed: false,
                awaiting_input: false,
                output: seq![],
            }),
    {
        let mut r = PicocVm::new("");
        proof {
            reveal_strlit("");
        }
        r.input_closed = false;
        assert(r@.input =~= seq![]);
        r
    }

    /// PC points into the program.
    spec fn running(&self) -> bool {
        self.wf() && self.reg.pc < self.inst_memory@.len()
    }

    fn push_next(&mut self, v: i32) -> (r: Result<(), Error>)
        requires
            old(self).running(),
        ensures
            final(self).wf(),
            (final(self)@, outcome(r)) == push_step(old(self)@, v),
    {
        if self.reg.sp == 0 {
            return Err(Error::StackOverflow);
        }
        self.reg.sp = self.reg.sp - 1;
        self.stack.set(self.reg.sp, v);
        self.reg.pc = (self.reg.pc + 1) % VM_INST_MEMORY_SIZE;
        Ok(())
    }

    fn store(&mut self, t: i64) -> (r: Result<(), Error>)
        requires
            old(self).running(),
        ensures
            final(self).wf(),
            (final(self)@, outcome(r)) == store_step(old(self)@, t as int),
    {
        if t < 0 || t >= VM_STACK_SIZE as i64 {
            return Err(Error::StackOutOfBound);
        }
        if self.reg.sp >= VM_STACK_SIZE {
            return Err(Error::StackUnderflow);
        }
        let v = self.stack[self.reg.sp];
        self.stack.set(t as usize, v);
        self.reg.pc = (self.reg.pc + 1) % VM_INST_MEMORY_SIZE;
        Ok(())
    }

    fn call(&mut self, target: Option<usize>, l: Ghost<Seq<char>>) -> (r: Result<(), Error>)
        requires
            old(self).running(),
            match target {
                Some(a) => old(self)@.labels.contains_key(l@) && old(self)@.labels[l@] == a as nat,
                None => !old(self)@.labels.contains_key(l@),
            },
        ensures
            final(self).wf(),
            (final(self)@, outcome(r)) == call_step(old(self)@, l@),
    {
        if self.reg.sp == 0 {
            return Err(Error::StackOverflow);
        }
        let ret_addr = (self.reg.pc + 1) as i32;
        self.reg.sp = self.reg.sp - 1;
        self.stack.set(self.reg.sp, ret_addr);
        let t = match target {
            Some(a) => a,
            None => self.reg.pc,
        };
        self.reg.pc = t % VM_INST_MEMORY_SIZE;
        Ok(())
    }

    fn ret(&mut self) -> (r: Result<(), Error>)
        requires
            old(self).running(),
        ensures
            final(self).wf(),
            (final(self)@, outcome(r)) == ret_step(old(self)@),
    {
        if self.reg.sp >= VM_STACK_SIZE {
            return Err(Error::StackUnderflow);
        }
        let v = self.stack[self.reg.sp];
        if v < 0 {
            return Err(Error::MemoryOutOfBound);
        }
        self.reg.sp = self.reg.sp + 1;
        self.reg.pc = (v as usize) % VM_INST_MEMORY_SIZE;
        Ok(())
    }

    fn enter(&mut self) -> (r: Result<(), Error>)
        requires
            old(self).running(),
        ensures
            final(self).wf(),
            (final(self)@, outcome(r)) == enter_step(old(self)@),
    {
        if self.reg.sp == 0 {
            return Err(Error::StackOverflow);
        }
        let fp = self.reg.fp as i32;
        self.reg.sp = self.reg.sp - 1;
        self.stack.set(self.reg.sp, fp);
        self.reg.fp = self.reg.sp;
        self.reg.pc = (self.reg.pc + 1) % VM_INST_MEMORY_SIZE;
        Ok(())
    }

    fn leave(&mut self) -> (r: Result<(), Error>)
        requires
            old(self).running(),
        ensures
            final(self).wf(),
            (final(self)@, outcome(r)) == leave_step(old(self)@),
    {
        if self.reg.fp >= VM_STACK_SIZE {
            return Err(Error::StackUnderflow);
        }
        let v = self.stack[self.reg.fp];
        if v < 0 || v > VM_STACK_SIZE as i32 {
            return Err(Error::StackOutOfBound);
        }
        self.reg.sp = self.reg.fp + 1;
        self.reg.fp = v as usize;
        self.reg.pc = (self.reg.pc + 1) % VM_INST_MEMORY_SIZE;
        Ok(())
    }

    fn mvsp(&mut self, n: i32) -> (r: Result<(), Error>)
        requires
            old(self).running(),
        ensures
            final(self).wf(),
            (final(self)@, outcome(r)) == mvsp_step(old(self)@, n),
    {
        let t = self.reg.sp as i64 + n as i64;
        if t < 0 || t > VM_STACK_SIZE as i64 {
            return Err(Error::StackOutOfBound);
        }
        self.reg.sp = t as usize;
        self.reg.pc = (self.reg.pc + 1) % VM_INST_MEMORY_SIZE;
        Ok(())
    }

    fn branch(&mut self, target: usize, on_zero: bool, l: Ghost<Seq<char>>) -> (r: Result<(), Error>)
        requires
            old(self).running(),
            old(self)@.labels.contains_key(l@),
            old(self)@.labels[l@] == target as nat,
        ensures
            final(self).wf(),
            (final(self)@, outcome(r)) == branch_step(old(self)@, l@, on_zero),
    {
        if self.reg.sp >= VM_STACK_SIZE {
            return Err(Error::StackUnderflow);
        }
        let v = self.stack[self.reg.sp];
        self.reg.sp = self.reg.sp + 1;
        if (v == 0) == on_zero {
            self.reg.pc = target % VM_INST_MEMORY_SIZE;
        } else {
            self.reg.pc = (self.reg.pc + 1) % VM_INST_MEMORY_SIZE;
        }
        Ok(())
    }

    fn finish_binary(&mut self, v: Option<i32>) -> (r: Result<(), Error>)
        requires
            old(self).running(),
            old(self).reg.sp + 1 < VM_STACK_SIZE,
        ensures
            final(self).wf(),
            (final(self)@, outcome(r)) == match v {
                None => fail(old(self)@, Fault::Arithmetic),
                Some(x) => done(advance(Machine {
                    sp: old(self)@.sp + 1,
                    stack: old(self)@.stack.update(old(self)@.sp + 1int, x),
                    ..old(self)@
                })),
            },
    {
        match v {
            None => Err(Error::ArithmeticError),
            Some(x) => {
                self.reg.sp = self.reg.sp + 1;
                self.stack.set(self.reg.sp, x);
                self.reg.pc = (self.reg.pc + 1) % VM_INST_MEMORY_SIZE;
                Ok(())
            },
        }
    }

    fn rd(&mut self) -> (r: Result<(), Error>)
        requires
            old(self).running(),
        ensures
            final(self).wf(),
            (final(self)@, outcome(r)) == rd_step(old(self)@),
    {
        if !self.awaiting_input {
            self.output.push('?');
            self.output.push(' ');
            assert(self.output@ =~= old(self).output@ + seq!['?', ' ']);
        }
        let ghost m1 = self@;
        let n = self.input.len();
        let start = self.input_pos;
        let mut k: usize = start;
        while k < n && self.input[k] != '\n'
            invariant
                self.wf(),
                self@ == m1,
                start == self.input_pos,
                n == self.input@.len(),
                start <= k <= n,
                forall|j: int| start <= j < k ==> self.input@[j] != '\n',
            decreases n - k,
        {
            k = k + 1;
        }
        proof {
            let s = self.input@.skip(start as int);
            assert forall|j: int| 0 <= j < k - start implies s[j] != '\n' by {
                assert(s[j] == self.input@[j + start]);
            }
            if k < n {
                assert(s[k - start] == self.input@[k as int]);
            }
            lemma_line_length(s, k - start);
        }
        let end: usize = if k < n {
            k + 1
        } else if self.input_closed {
            n
        } else {
            self.awaiting_input = true;
            return Ok(());
        };
        let line = slice_chars(&self.input, start, end);
        self.input_pos = end;
        self.awaiting_input = false;
        proof {
            let s = self.input@.skip(start as int);
            assert(line@ =~= s.take(end - start));
            assert(self.input@.skip(end as int) =~= s.skip(end - start));
        }
        let text = string_of(&trimmed(&line));
        match parse_i32(text.as_str()) {
            Ok(v) => self.push_next(v),
            Err(e) => Err(Error::ParseIntError(e)),
        }
    }

    fn wr(&mut self) -> (r: Result<(), Error>)
        requires
            old(self).running(),
        ensures
            final(self).wf(),
            (final(self)@, outcome(r)) == wr_step(old(self)@),
    {
        if self.reg.sp >= VM_STACK_SIZE {
            return Err(Error::StackUnderflow);
        }
        let v = self.stack[self.reg.sp];
        self.reg.sp = self.reg.sp + 1;
        push_decimal(&mut self.output, v);
        self.output.push(' ');
        assert(self.output@ =~= old(self).output@ + decimal(v as int) + seq![' ']);
        self.reg.pc = (self.reg.pc + 1) % VM_INST_MEMORY_SIZE;
        Ok(())
    }

    /// Executes the instruction that PC points to, then moves PC on (to the
    /// next instruction, or where a jump, call or return sends it, modulo
    /// `VM_INST_MEMORY_SIZE`).
    ///
    /// Fails with `VmHalted` once the machine has halted, with
    /// `MemoryOutOfBound` when PC lies past the program, and otherwise with
    /// the error of the instruction; a failing instruction changes nothing
    /// but what `rd` has already read and written.
    pub fn step(&mut self) -> (r: Result<(), Error>)
        requires
            old(self).wf(),
        ensures
            final(self).wf(),
            (final(self)@, outcome(r)) == step_spec(old(self)@),
    {
        if self.is_halted {
            return Err(Error::VmHalted);
        }
        if self.reg.pc >= self.inst_memory.len() {
            return Err(Error::MemoryOutOfBound);
        }
        let pc = self.reg.pc;
        let op = &self.inst_memory[pc];
        assert(self@.inst[pc as int] == op@);
        match op {
            Opcode::Pushl(n) => {
                let t = self.reg.fp as i64 + *n as i64;
                if t < 0 || t >= VM_STACK_SIZE as i64 {
                    return Err(Error::StackOutOfBound);
                }
                let v = self.stack[t as usize];
                self.push_next(v)
            },
            Opcode::Storel(n) => {
                let t = self.reg.fp as i64 + *n as i64;
                self.store(t)
            },
            Opcode::Storet(n) => {
                let t = self.reg.sp as i64 + *n as i64;
                self.store(t)
            },
            Opcode::Pushi(d) => {
                let d = *d;
                self.push_next(d)
            },
            Opcode::Call(l) => {
                let ghost name = l@;
                let target = self.label_table.lookup(l);
                self.call(target, Ghost(name))
            },
            Opcode::Ret => self.ret(),
            Opcode::Enter => self.enter(),
            Opcode::Leave => self.leave(),
            Opcode::Mvsp(n) => {
                let n = *n;
                self.mvsp(n)
            },
            Opcode::Jp(l) => match self.label_table.lookup(l) {
                None => Err(Error::LabelNotFound(l.clone())),
                Some(a) => {
                    self.reg.pc = a % VM_INST_MEMORY_SIZE;
                    Ok(())
                },
            },
            Opcode::Jt(l) => {
                let ghost name = l@;
                match self.label_table.lookup(l) {
                    None => Err(Error::LabelNotFound(l.clone())),
                    Some(a) => self.branch(a, false, Ghost(name)),
                }
            },
            Opcode::Jf(l) => {
                let ghost name = l@;
                match self.label_table.lookup(l) {
                    None => Err(Error::LabelNotFound(l.clone())),
                    Some(a) => self.branch(a, true, Ghost(name)),
                }
            },
            Opcode::Rd => self.rd(),
            Opcode::Wr => self.wr(),
            Opcode::Wrln => {
                self.output.push('\n');
                self.reg.pc = (self.reg.pc + 1) % VM_INST_MEMORY_SIZE;
                Ok(())
            },
            Opcode::Halt => {
                self.is_halted = true;
                Ok(())
            },
            _ => {
                if self.reg.sp + 1 >= VM_STACK_SIZE {
                    return Err(Error::StackUnderflow);
                }
                let t1 = self.stack[self.reg.sp];
                let t2 = self.stack[self.reg.sp + 1];
                let v = arith(op, t2, t1);
                self.finish_binary(v)
            },
        }
    }

    /// Loads a program from source text and resets the machine: the
    /// instruction memory and the label table are replaced, the stack is
    /// zeroed, PC is 0, SP and FP are `VM_STACK_SIZE`, and the machine runs
    /// again. The input and output streams are kept.
    ///
    /// Fails with the error of the first line that does not decode, or with
    /// `MemoryOutOfBound` for a program of more than `VM_INST_MEMORY_SIZE`
    /// instructions; the machine is then left as it was.
    pub fn load(&mut self, code: &str) -> (r: Result<(), Error>)
        requires
            old(self).wf(),
        ensures
            final(self).wf(),
            match load_spec(old(self)@, code@) {
                Ok(m) => r is Ok && final(self)@ == m,
                Err(f) => r matches Err(e) && e@ == f && final(self)@ == old(self)@,
            },
    {
        let lines = split_code(code);
        let mut table = LabelTable::new();
        load_label(&lines, &mut table); // first pass
        let mut mem: Vec<Opcode> = Vec::new();
        match load_inst(&lines, &mut mem) { // second pass
            Ok(()) => {},
            Err(e) => return Err(e),
        }
        if mem.len() > VM_INST_MEMORY_SIZE {
            return Err(Error::MemoryOutOfBound);
        }
        self.inst_memory = mem;
        self.label_table = table;
        self.stack = zeroed_stack();
        self.reg = Registers { pc: 0, sp: VM_STACK_SIZE, fp: VM_STACK_SIZE };
        self.is_halted = false;
        self.awaiting_input = false;
        Ok(())
    }

    /// Runs until the machine halts or PC leaves the program, which both end
    /// the run with success; until a step fails, whose error is returned; or
    /// until an `rd` waits for input that has not come yet. A run takes at
    /// most `RUN_STEP_LIMIT` steps.
    pub fn run_until_halt(&mut self) -> (r: Result<(), Error>)
        requires
            old(self).wf(),
        ensures
            final(self).wf(),
            (final(self)@, outcome(r)) == run_spec(old(self)@, RUN_STEP_LIMIT as nat),
    {
        let mut fuel: u64 = RUN_STEP_LIMIT;
        while fuel > 0
            invariant
                self.wf(),
                run_spec(old(self)@, RUN_STEP_LIMIT as nat) == run_spec(self@, fuel as nat),
            decreases fuel,
        {
            match self.step() {
                Ok(()) => {
                    if self.awaiting_input {
                        return Ok(());
                    }
                },
                Err(Error::VmHalted) => return Ok(()),
                Err(Error::MemoryOutOfBound) => return Ok(()),
                Err(e) => return Err(e),
            }
            fuel = fuel - 1;
        }
        Ok(())
    }

    /// The instruction memory.
    pub fn inst_memory(&self) -> (r: &[Opcode])
        ensures
            instrs(r@) == self@.inst,
    {
        self.inst_memory.as_slice()
    }

    /// The label table.
    pub fn label_table(&self) -> (r: &LabelTable)
        requires
            self.wf(),
        ensures
            r.wf(),
            r@ == self@.labels,
    {
        &self.label_table
    }

    /// The live part of the stack: the cells from the lower of SP and FP to
    /// the bottom.
    pub fn stack(&self) -> (r: &[i32])
        requires
            self.wf(),
        ensures
            r@ == self@.stack.subrange(
                if self@.sp <= self@.fp { self@.sp as int } else { self@.fp as int },
                VM_STACK_SIZE as int,
            ),
    {
        let bottom = if self.reg.sp <= self.reg.fp { self.reg.sp } else { self.reg.fp };
        &self.stack.as_slice()[bottom..VM_STACK_SIZE]
    }

    /// The registers.
    pub fn registers(&self) -> (r: &Registers)
        ensures
            r.pc == self@.pc,
            r.sp == self@.sp,
            r.fp == self@.fp,
    {
        &self.reg
    }

    /// Whether the machine has halted.
    pub fn is_halted(&self) -> (r: bool)
        ensures
            r == self@.halted,
    {
        self.is_halted
    }

    /// Whether an `rd` has written its prompt and waits for a line of input.
    pub fn awaiting_input(&self) -> (r: bool)
        ensures
            r == self@.awaiting_input,
    {
        self.awaiting_input
    }

    /// Appends `text` to the input.
    pub fn feed_input(&mut self, text: &str)
        requires
            old(self).wf(),
        ensures
            final(self).wf(),
            final(self)@ == (Machine { input: old(self)@.input + text@, ..old(self)@ }),
    {
        let cs = chars_of(text);
        let mut i: usize = 0;
        while i < cs.len()
            invariant
                self.wf(),
                i <= cs@.len(),
                self@ == (Machine { input: old(self)@.input + cs@.take(i as int), ..old(self)@ }),
            decreases cs@.len() - i,
        {
            let ghost before = self.input@;
            self.input.push(cs[i]);
            assert(self.input@.skip(self.input_pos as int) =~= old(self)@.input + cs@.take(i as int + 1)) by {
                assert(before.skip(self.input_pos as int) =~= old(self)@.input + cs@.take(i as int));
                assert(self.input@ == before.push(cs@[i as int]));
                assert(cs@.take(i as int + 1) =~= cs@.take(i as int).push(cs@[i as int]));
                assert(self.input@.skip(self.input_pos as int) =~= before.skip(self.input_pos as int).push(cs@[i as int]));
            }
            i = i + 1;
        }
        assert(cs@.take(i as int) =~= cs@);
    }

    /// Declares that no more input will come: a read then takes what is left.
    pub fn close_input(&mut self)
        requires
            old(self).wf(),
        ensures
            final(self).wf(),
            final(self)@ == (Machine { input_closed: true, ..old(self)@ }),
    {
        self.input_closed = true;
    }

    /// Everything written so far.
    pub fn output(&self) -> (r: String)
        ensures
            r@ == self@.output,
    {
        string_of(&self.output)
    }

    /// Everything written so far, which is then cleared.
    pub fn take_output(&mut self) -> (r: String)
        requires
            old(self).wf(),
        ensures
            final(self).wf(),
            r@ == old(self)@.output,
            final(self)@ == (Machine { output: seq![], ..old(self)@ }),
    {
        let r = string_of(&self.output);
        self.output = Vec::new();
        assert(self@.output =~= seq![]);
        r
    }
}

} // verus!

verus! {

/// A machine whose registers and stack are in range.
pub open spec fn in_range(m: Machine) -> bool {
    &&& m.stack.len() == VM_STACK_SIZE
    &&& m.sp <= VM_STACK_SIZE
    &&& m.fp <= VM_STACK_SIZE
}

/// Loading discards everything an earlier load left: loading `b` after a
/// successful load of `a` gives what loading `b` alone gives, success or
/// error alike.
pub proof fn lemma_load_discards_earlier(m: Machine, a: Seq<char>, b: Seq<char>)
    requires
        load_spec(m, a) is Ok,
    ensures
        load_spec(load_spec(m, a)->Ok_0, b) == load_spec(m, b),
{
}

/// `leave` right after `enter` gives SP and FP back their values from
/// before the `enter`.
pub proof fn lemma_enter_leave(m: Machine)
    requires
        in_range(m),
        m.sp > 0,
    ensures
        enter_step(m).1 is Ok,
        leave_step(enter_step(m).0).1 is Ok,
        leave_step(enter_step(m).0).0.sp == m.sp,
        leave_step(enter_step(m).0).0.fp == m.fp,
{
}

/// `ret` right after `call` returns to the instruction after the `call`,
/// with SP back at its value from before the `call`.
pub proof fn lemma_call_ret(m: Machine, l: Seq<char>)
    requires
        in_range(m),
        m.sp > 0,
        m.pc < VM_INST_MEMORY_SIZE,
    ensures
        call_step(m, l).1 is Ok,
        ret_step(call_step(m, l).0).1 is Ok,
        ret_step(call_step(m, l).0).0.pc == (m.pc + 1) % (VM_INST_MEMORY_SIZE as nat),
        ret_step(call_step(m, l).0).0.sp == m.sp,
        ret_step(call_step(m, l).0).0.fp == m.fp,
{
}

/// Running a machine whose PC lies past its program ends at once, with
/// success and nothing changed.
pub proof fn lemma_run_past_end(m: Machine, fuel: nat)
    requires
        !m.halted,
        m.pc >= m.inst.len(),
    ensures
        run_spec(m, fuel) == (m, Ok::<(), Fault>(())),
{
}

} // verus!
