//! The instruction set, and the translation between instructions and text.

use vstd::prelude::*;
use crate::error::{Error, Fault, outcome};
use crate::text::{chars_of, decimal, int_text, parse_i32, push_decimal, push_str, spells, string_of};

verus! {

/// An instruction of the picoc machine.
///
/// The machine is a stack machine whose stack grows downward: a push
/// decrements SP and then writes the cell at SP; a pop reads the cell at SP
/// and then increments SP.
#[derive(Debug, PartialEq)]
pub enum Opcode {
    /// Pushes the local variable at `fp + n`. (`pushl` n)
    Pushl(i32),
    /// Copies the top of the stack into the local variable at `fp + n`, without popping. (`storel` n)
    Storel(i32),
    /// Copies the top of the stack into the cell at `sp + n`, without popping. (`storet` n)
    Storet(i32),
    /// Pushes an immediate value. (`pushi` n)
    Pushi(i32),
    /// Calls the function at a label: pushes the return address and jumps;
    /// PC stays put when the label is unknown. (`call` label)
    Call(String),
    /// Returns from a function: pops the return address into PC. (`ret`)
    Ret,
    /// Opens a stack frame: pushes FP, then sets FP to SP. (`enter`)
    Enter,
    /// Closes a stack frame: sets SP to FP, then pops FP. (`leave`)
    Leave,
    /// Moves SP by `n`. (`mvsp` n)
    Mvsp(i32),
    /// Jumps to a label. (`jp` label)
    Jp(String),
    /// Pops a value and jumps to a label if it is not zero. (`jt` label)
    Jt(String),
    /// Pops a value and jumps to a label if it is zero. (`jf` label)
    Jf(String),
    /// Pops `t1`, pops `t2`, pushes `t2 + t1`. (`add`)
    Add,
    /// Pops `t1`, pops `t2`, pushes `t2 - t1`. (`sub`)
    Sub,
    /// Pops `t1`, pops `t2`, pushes `t2 * t1`. (`mul`)
    Mul,
    /// Pops `t1`, pops `t2`, pushes `t2 / t1`. (`div`)
    Div,
    /// Pops `t1`, pops `t2`, pushes `t2 % t1`. (`mod`)
    Mod,
    /// Pops `t1`, pops `t2`, pushes 1 if `t2 == t1`, else 0. (`eq`)
    Eq,
    /// Pops `t1`, pops `t2`, pushes 1 if `t2 != t1`, else 0. (`ne`)
    Ne,
    /// Pops `t1`, pops `t2`, pushes 1 if `t2 > t1`, else 0. (`gt`)
    Gt,
    /// Pops `t1`, pops `t2`, pushes 1 if `t2 >= t1`, else 0. (`ge`)
    Ge,
    /// Pops `t1`, pops `t2`, pushes 1 if `t2 < t1`, else 0. (`lt`)
    Lt,
    /// Pops `t1`, pops `t2`, pushes 1 if `t2 <= t1`, else 0. (`le`)
    Le,
    /// Writes the prompt `? `, reads a line, and pushes the integer it holds. (`rd`)
    Rd,
    /// Pops a value and writes it in decimal, followed by a space. (`wr`)
    Wr,
    /// Writes a line feed. (`wrln`)
    Wrln,
    /// Halts the machine. (`halt`)
    Halt,
}

/// An instruction, with its label operand as characters.
pub enum Instr {
    Pushl(i32),
    Storel(i32),
    Storet(i32),
    Pushi(i32),
    Call(Seq<char>),
    Ret,
    Enter,
    Leave,
    Mvsp(i32),
    Jp(Seq<char>),
    Jt(Seq<char>),
    Jf(Seq<char>),
    Add,
    Sub,
    Mul,
    Div,
    Mod,
    Eq,
    Ne,
    Gt,
    Ge,
    Lt,
    Le,
    Rd,
    Wr,
    Wrln,
    Halt,
}

impl View for Opcode {
    type V = Instr;

    open spec fn view(&self) -> Instr {
        match self {
            Opcode::Pushl(n) => Instr::Pushl(*n),
            Opcode::Storel(n) => Instr::Storel(*n),
            Opcode::Storet(n) => Instr::Storet(*n),
            Opcode::Pushi(n) => Instr::Pushi(*n),
            Opcode::Call(l) => Instr::Call(l@),
            Opcode::Ret => Instr::Ret,
            Opcode::Enter => Instr::Enter,
            Opcode::Leave => Instr::Leave,
            Opcode::Mvsp(n) => Instr::Mvsp(*n),
            Opcode::Jp(l) => Instr::Jp(l@),
            Opcode::Jt(l) => Instr::Jt(l@),
            Opcode::Jf(l) => Instr::Jf(l@),
            Opcode::Add => Instr::Add,
            Opcode::Sub => Instr::Sub,
            Opcode::Mul => Instr::Mul,
            Opcode::Div => Instr::Div,
            Opcode::Mod => Instr::Mod,
            Opcode::Eq => Instr::Eq,
            Opcode::Ne => Instr::Ne,
            Opcode::Gt => Instr::Gt,
            Opcode::Ge => Instr::Ge,
            Opcode::Lt => Instr::Lt,
            Opcode::Le => Instr::Le,
            Opcode::Rd => Instr::Rd,
            Opcode::Wr => Instr::Wr,
            Opcode::Wrln => Instr::Wrln,
            Opcode::Halt => Instr::Halt,
        }
    }
}

/// A decoding result, with its instruction and its error as views.
pub open spec fn decoded(r: Result<Opcode, Error>) -> Result<Instr, Fault> {
    match r {
        Ok(op) => Ok(op@),
        Err(e) => Err(e@),
    }
}

/// The mnemonics that take an integer operand.
pub open spec fn int_kind(m: Seq<char>) -> bool {
    m == "pushl"@ || m == "storel"@ || m == "storet"@ || m == "pushi"@ || m == "mvsp"@
}

/// The mnemonics that take a label operand.
pub open spec fn label_kind(m: Seq<char>) -> bool {
    m == "call"@ || m == "jp"@ || m == "jt"@ || m == "jf"@
}

/// The instruction of an integer-operand mnemonic.
pub open spec fn with_int(m: Seq<char>, n: i32) -> Instr {

    if m == "pushl"@ {
        Instr::Pushl(n)
    } else 
    if m == "storel"@ {
        Instr::Storel(n)
    } else 
    if m == "storet"@ {
        Instr::Storet(n)
    } else 
    if m == "pushi"@ {
        Instr::Pushi(n)
    } else 
    {
        Instr::Mvsp(n)
    }
}

/// The instruction of a label-operand mnemonic.
pub open spec fn with_label(m: Seq<char>, l: Seq<char>) -> Instr {

    if m == "call"@ {
        Instr::Call(l)
    } else 
    if m == "jp"@ {
        Instr::Jp(l)
    } else 
    if m == "jt"@ {
        Instr::Jt(l)
    } else 
    {
        Instr::Jf(l)
    }
}

/// The instruction of a mnemonic without operand, if `m` is one.
pub open spec fn bare(m: Seq<char>) -> Option<Instr> {

    if m == "ret"@ {
        Some(Instr::Ret)
    } else 
    if m == "enter"@ {
        Some(Instr::Enter)
    } else 
    if m == "leave"@ {
        Some(Instr::Leave)
    } else 
    if m == "add"@ {
        Some(Instr::Add)
    } else 
    if m == "sub"@ {
        Some(Instr::Sub)
    } else 
    if m == "mul"@ {
        Some(Instr::Mul)
    } else 
    if m == "div"@ {
        Some(Instr::Div)
    } else 
    if m == "mod"@ {
        Some(Instr::Mod)
    } else 
    if m == "eq"@ {
        Some(Instr::Eq)
    } else 
    if m == "ne"@ {
        Some(Instr::Ne)
    } else 
    if m == "gt"@ {
        Some(Instr::Gt)
    } else 
    if m == "ge"@ {
        Some(Instr::Ge)
    } else 
    if m == "lt"@ {
        Some(Instr::Lt)
    } else 
    if m == "le"@ {
        Some(Instr::Le)
    } else 
    if m == "rd"@ {
        Some(Instr::Rd)
    } else 
    if m == "wr"@ {
        Some(Instr::Wr)
    } else 
    if m == "wrln"@ {
        Some(Instr::Wrln)
    } else 
    if m == "halt"@ {
        Some(Instr::Halt)
    } else 
    {
        None
    }
}

/// The instruction that a lower-case mnemonic `m` and the operand token
/// after it, if any, stand for.
pub open spec fn parse_instr(m: Seq<char>, operand: Option<Seq<char>>) -> Result<Instr, Fault> {
    if int_kind(m) {
        match operand {
            None => Err(Fault::OperandNotFound),
            Some(t) => match int_text(t) {
                None => Err(Fault::ParseInt),
                Some(n) => Ok(with_int(m, n)),
            },
        }
    } else if label_kind(m) {
        match operand {
            None => Err(Fault::OperandNotFound),
            Some(t) => Ok(with_label(m, t)),
        }
    } else {
        match bare(m) {
            Some(i) => Ok(i),
            None => Err(Fault::UnknownOpcode(m)),
        }
    }
}

/// The lower-case form of `s`, as `str::to_lowercase` gives it.
pub uninterp spec fn lower_of(s: Seq<char>) -> Seq<char>;

/// Relies on `str::to_lowercase`: its result depends on the characters of
/// `s` alone.
#[verifier::external_body]
fn lowercase(s: &str) -> (r: String)
    ensures
        r@ == lower_of(s@),
{
    s.to_lowercase()
}

/// The instruction that a line of tokens stands for: its first token,
/// compared without regard to case, names the kind, and the second one, if
/// any, is the operand.
pub open spec fn decode_line(line: Seq<Seq<char>>) -> Result<Instr, Fault> {
    if line.len() == 0 {
        Err(Fault::OpcodeNotFound)
    } else {
        parse_instr(lower_of(line[0]), if line.len() >= 2 { Some(line[1]) } else { None })
    }
}

/// The text of an instruction: its lower-case mnemonic, then a space and the
/// operand if it has one.
pub open spec fn render(i: Instr) -> Seq<char> {
    match i {
        Instr::Pushl(n) => "pushl "@ + decimal(n as int),
        Instr::Storel(n) => "storel "@ + decimal(n as int),
        Instr::Storet(n) => "storet "@ + decimal(n as int),
        Instr::Pushi(n) => "pushi "@ + decimal(n as int),
        Instr::Call(l) => "call "@ + l,
        Instr::Ret => "ret"@,
        Instr::Enter => "enter"@,
        Instr::Leave => "leave"@,
        Instr::Mvsp(n) => "mvsp "@ + decimal(n as int),
        Instr::Jp(l) => "jp "@ + l,
        Instr::Jt(l) => "jt "@ + l,
        Instr::Jf(l) => "jf "@ + l,
        Instr::Add => "add"@,
        Instr::Sub => "sub"@,
        Instr::Mul => "mul"@,
        Instr::Div => "div"@,
        Instr::Mod => "mod"@,
        Instr::Eq => "eq"@,
        Instr::Ne => "ne"@,
        Instr::Gt => "gt"@,
        Instr::Ge => "ge"@,
        Instr::Lt => "lt"@,
        Instr::Le => "le"@,
        Instr::Rd => "rd"@,
        Instr::Wr => "wr"@,
        Instr::Wrln => "wrln"@,
        Instr::Halt => "halt"@,
    }
}

fn takes_int(m: &Vec<char>) -> (r: bool)
    ensures
        r == int_kind(m@),
{
    spells(m, "pushl") || spells(m, "storel") || spells(m, "storet") || spells(m, "pushi") || spells(m, "mvsp")
}

fn takes_label(m: &Vec<char>) -> (r: bool)
    ensures
        r == label_kind(m@),
{
    spells(m, "call") || spells(m, "jp") || spells(m, "jt") || spells(m, "jf")
}

fn inst_with_i32(m: &Vec<char>, n: i32) -> (r: Opcode)
    requires
        int_kind(m@),
    ensures
        r@ == with_int(m@, n),
{

    if spells(m, "pushl") {
        Opcode::Pushl(n)
    } else 
    if spells(m, "storel") {
        Opcode::Storel(n)
    } else 
    if spells(m, "storet") {
        Opcode::Storet(n)
    } else 
    if spells(m, "pushi") {
        Opcode::Pushi(n)
    } else 
    {
        Opcode::Mvsp(n)
    }
}

fn inst_with_string(m: &Vec<char>, l: String) -> (r: Opcode)
    requires
        label_kind(m@),
    ensures
        r@ == with_label(m@, l@),
{

    if spells(m, "call") {
        Opcode::Call(l)
    } else 
    if spells(m, "jp") {
        Opcode::Jp(l)
    } else 
    if spells(m, "jt") {
        Opcode::Jt(l)
    } else 
    {
        Opcode::Jf(l)
    }
}

fn bare_inst(m: &Vec<char>) -> (r: Option<Opcode>)
    ensures
        match r {
            Some(op) => bare(m@) == Some(op@),
            None => bare(m@) is None,
        },
{

    if spells(m, "ret") {
        Some(Opcode::Ret)
    } else 
    if spells(m, "enter") {
        Some(Opcode::Enter)
    } else 
    if spells(m, "leave") {
        Some(Opcode::Leave)
    } else 
    if spells(m, "add") {
        Some(Opcode::Add)
    } else 
    if spells(m, "sub") {
        Some(Opcode::Sub)
    } else 
    if spells(m, "mul") {
        Some(Opcode::Mul)
    } else 
    if spells(m, "div") {
        Some(Opcode::Div)
    } else 
    if spells(m, "mod") {
        Some(Opcode::Mod)
    } else 
    if spells(m, "eq") {
        Some(Opcode::Eq)
    } else 
    if spells(m, "ne") {
        Some(Opcode::Ne)
    } else 
    if spells(m, "gt") {
        Some(Opcode::Gt)
    } else 
    if spells(m, "ge") {
        Some(Opcode::Ge)
    } else 
    if spells(m, "lt") {
        Some(Opcode::Lt)
    } else 
    if spells(m, "le") {
        Some(Opcode::Le)
    } else 
    if spells(m, "rd") {
        Some(Opcode::Rd)
    } else 
    if spells(m, "wr") {
        Some(Opcode::Wr)
    } else 
    if spells(m, "wrln") {
        Some(Opcode::Wrln)
    } else 
    if spells(m, "halt") {
        Some(Opcode::Halt)
    } else 
    {
        None
    }
}

impl Opcode {
    /// Builds the instruction that the lower-case mnemonic `mnemonic` and
    /// the operand token after it, if any, stand for.
    pub fn from_mnemonic(mnemonic: &str, operand: Option<&String>) -> (r: Result<Opcode, Error>)
        ensures
            decoded(r) == parse_instr(mnemonic@, match operand {
                Some(t) => Some(t@),
                None => None,
            }),
    {
        let m = chars_of(mnemonic);
        if takes_int(&m) {
            match operand {
                None => Err(Error::OperandNotFound),
                Some(t) => match parse_i32(t.as_str()) {
                    Ok(n) => Ok(inst_with_i32(&m, n)),
                    Err(e) => Err(Error::ParseIntError(e)),
                },
            }
        } else if takes_label(&m) {
            match operand {
                None => Err(Error::OperandNotFound),
                Some(t) => Ok(inst_with_string(&m, t.clone())),
            }
        } else {
            match bare_inst(&m) {
                Some(op) => Ok(op),
                None => Err(Error::UnknownOpcode(String::from_str(mnemonic))),
            }
        }
    }

    /// Converts a line of tokens (e.g. `["pushi", "123"]`) into an
    /// instruction. The mnemonic is compared without regard to case.
    pub fn from_line(line: &Vec<String>) -> (r: Result<Opcode, Error>)
        ensures
            decoded(r) == decode_line(line.deep_view()),
    {
        if line.len() < 1 {
            return Err(Error::OpcodeNotFound);
        }
        let m = lowercase(line[0].as_str());
        assert(line.deep_view()[0] == line@[0]@);
        if line.len() >= 2 {
            assert(line.deep_view()[1] == line@[1]@);
            Opcode::from_mnemonic(m.as_str(), Some(&line[1]))
        } else {
            Opcode::from_mnemonic(m.as_str(), None)
        }
    }

    /// The assembly text of the instruction, e.g. `pushi 123`.
    pub fn to_string(&self) -> (r: String)
        ensures
            r@ == render(self@),
    {
        let mut out: Vec<char> = Vec::new();
        match self {
            Opcode::Pushl(n) => {
                push_str(&mut out, "pushl ");
                push_decimal(&mut out, *n);
            },
            Opcode::Storel(n) => {
                push_str(&mut out, "storel ");
                push_decimal(&mut out, *n);
            },
            Opcode::Storet(n) => {
                push_str(&mut out, "storet ");
                push_decimal(&mut out, *n);
            },
            Opcode::Pushi(n) => {
                push_str(&mut out, "pushi ");
                push_decimal(&mut out, *n);
            },
            Opcode::Call(l) => {
                push_str(&mut out, "call ");
                push_str(&mut out, l.as_str());
            },
            Opcode::Ret => push_str(&mut out, "ret"),
            Opcode::Enter => push_str(&mut out, "enter"),
            Opcode::Leave => push_str(&mut out, "leave"),
            Opcode::Mvsp(n) => {
                push_str(&mut out, "mvsp ");
                push_decimal(&mut out, *n);
            },
            Opcode::Jp(l) => {
                push_str(&mut out, "jp ");
                push_str(&mut out, l.as_str());
            },
            Opcode::Jt(l) => {
                push_str(&mut out, "jt ");
                push_str(&mut out, l.as_str());
            },
            Opcode::Jf(l) => {
                push_str(&mut out, "jf ");
                push_str(&mut out, l.as_str());
            },
            Opcode::Add => push_str(&mut out, "add"),
            Opcode::Sub => push_str(&mut out, "sub"),
            Opcode::Mul => push_str(&mut out, "mul"),
            Opcode::Div => push_str(&mut out, "div"),
            Opcode::Mod => push_str(&mut out, "mod"),
            Opcode::Eq => push_str(&mut out, "eq"),
            Opcode::Ne => push_str(&mut out, "ne"),
            Opcode::Gt => push_str(&mut out, "gt"),
            Opcode::Ge => push_str(&mut out, "ge"),
            Opcode::Lt => push_str(&mut out, "lt"),
            Opcode::Le => push_str(&mut out, "le"),
            Opcode::Rd => push_str(&mut out, "rd"),
            Opcode::Wr => push_str(&mut out, "wr"),
            Opcode::Wrln => push_str(&mut out, "wrln"),
            Opcode::Halt => push_str(&mut out, "halt"),
        }
        string_of(&out)
    }
}

} // verus!
