use picoc_vm::{Error, Opcode, PicocVm, VM_INST_MEMORY_SIZE, VM_STACK_SIZE};

fn top(vm: &PicocVm) -> i32 {
    *vm.stack().first().unwrap()
}

fn bottom_cell(vm: &PicocVm) -> i32 {
    *vm.stack().last().unwrap()
}

#[test]
fn arithmetic_operations() -> Result<(), Error> {
    let mut vm = PicocVm::new("");

    // (3+2) * (8-2) / 5 = 6
    let code = "
            pushi 3
            pushi 2
            add
            pushi 8
            pushi 2
            sub
            mul
            pushi 5
            div
        ";

    vm.load(code)?;

    while let Ok(()) = vm.step() {}

    assert_eq!(bottom_cell(&vm), 6);

    Ok(())
}

#[test]
fn comparison_operations() -> Result<(), Error> {
    let mut vm = PicocVm::new("");

    let code_eq = "
            pushi 10
            pushi -1
            eq
        ";
    let code_ne = "
            pushi 1
            pushi -1
            ne
        ";
    let code_gt = "
            pushi 4
            pushi 4
            gt
        ";
    let code_ge = "
            pushi 4
            pushi 4
            ge
        ";
    let code_lt = "
            pushi 10
            pushi -1
            lt
        ";
    let code_le = "
            pushi -1
            pushi 10
            le
        ";

    vm.load(code_eq)?;
    for _ in 0..3 {
        vm.step()?;
    }
    assert_eq!(bottom_cell(&vm), 0); // 10 == -1 is false
    vm.load(code_ne)?;
    for _ in 0..3 {
        vm.step()?;
    }
    assert_eq!(bottom_cell(&vm), 1); // 1 != -1 is true
    vm.load(code_gt)?;
    for _ in 0..3 {
        vm.step()?;
    }
    assert_eq!(bottom_cell(&vm), 0); // 4 > 4 is false
    vm.load(code_ge)?;
    for _ in 0..3 {
        vm.step()?;
    }
    assert_eq!(bottom_cell(&vm), 1); // 4 >= 4 is true
    vm.load(code_lt)?;
    for _ in 0..3 {
        vm.step()?;
    }
    assert_eq!(bottom_cell(&vm), 0); // 10 < -1 is false
    vm.load(code_le)?;
    for _ in 0..3 {
        vm.step()?;
    }
    assert_eq!(bottom_cell(&vm), 1); // -1 <= 10 is true

    Ok(())
}

#[test]
fn io_operations() -> Result<(), Error> {
    let mut vm = PicocVm::new("-123\n");

    let code = "
            rd
            wr
            wrln
        ";

    vm.load(code)?;

    for _ in 0..3 {
        vm.step()?;
    }

    assert_eq!(vm.output().as_bytes(), b"? -123 \n");

    Ok(())
}

#[test]
fn call_function() -> Result<(), Error> {
    let mut vm = PicocVm::new("10\n20\n");

    let code = "
            __start__:
                call main
                halt
            main:
                enter
                rd
                rd
                mvsp -1
                call add
                storet 2
                mvsp 2
                wr
                wrln
                leave
                ret
            add:
                enter
                pushl 4
                pushl 3
                add
                storel 2
                leave
                ret
        ";

    vm.load(code)?;

    while let Ok(()) = vm.step() {}

    assert_eq!(vm.output().as_bytes(), b"? ? 30 \n");

    Ok(())
}

#[test]
#[should_panic(expected = "Unknown opcode 'hoge' is found")]
fn unknown_operation() {
    let mut vm = PicocVm::new("");

    let code = "hoge";

    vm.load(code).unwrap_or_else(|err| {
        panic!("{}", err.message());
    });
}

#[test]
#[should_panic(expected = "Operand is not found")]
fn operand_not_found() {
    let mut vm = PicocVm::new("");

    let code = "pushi";

    vm.load(code).unwrap_or_else(|err| {
        panic!("{}", err.message());
    });
}

#[test]
fn label_addresses_after_load() -> Result<(), Error> {
    let mut vm = PicocVm::new("");
    vm.load("L0:\n pushi 1\n pushi 2\n add\nL1:\n halt\n")?;
    assert_eq!(vm.label_table().get("L0"), Some(0));
    assert_eq!(vm.label_table().get("L1"), Some(3));
    assert_eq!(vm.inst_memory().len(), 4);
    Ok(())
}

#[test]
fn arithmetic_step_by_step() -> Result<(), Error> {
    let mut vm = PicocVm::new("");
    vm.load("pushi 3\npushi 2\nadd\npushi 8\npushi 2\nsub\nmul\npushi 5\ndiv\n")?;
    for _ in 0..9 {
        vm.step()?;
    }
    assert_eq!(vm.stack(), &[6]);
    assert_eq!(vm.registers().pc, 9);
    assert_eq!(vm.registers().sp, VM_STACK_SIZE - 1);
    Ok(())
}

#[test]
fn division_and_modulus_truncate() -> Result<(), Error> {
    let mut vm = PicocVm::new("");
    vm.load("pushi -7\npushi 2\ndiv\npushi -7\npushi 2\nmod\n")?;
    vm.run_until_halt()?;
    assert_eq!(vm.stack(), &[-1, -3]);
    Ok(())
}

#[test]
fn comparison_gt_ge_on_equal_values() -> Result<(), Error> {
    let mut vm = PicocVm::new("");
    vm.load("pushi 4\npushi 4\ngt\n")?;
    vm.run_until_halt()?;
    assert_eq!(top(&vm), 0);
    vm.load("pushi 4\npushi 4\nge\n")?;
    vm.run_until_halt()?;
    assert_eq!(top(&vm), 1);
    Ok(())
}

#[test]
fn call_and_return_restore_registers() -> Result<(), Error> {
    let mut vm = PicocVm::new("");
    vm.load("call f\nhalt\nf:\nenter\nleave\nret\n")?;
    vm.step()?; // call f
    assert_eq!(vm.registers().pc, 2);
    assert_eq!(vm.registers().sp, VM_STACK_SIZE - 1);
    assert_eq!(vm.registers().fp, VM_STACK_SIZE);
    vm.step()?; // enter
    assert_eq!(vm.registers().sp, VM_STACK_SIZE - 2);
    assert_eq!(vm.registers().fp, VM_STACK_SIZE - 2);
    vm.step()?; // leave
    assert_eq!(vm.registers().sp, VM_STACK_SIZE - 1);
    assert_eq!(vm.registers().fp, VM_STACK_SIZE);
    vm.step()?; // ret
    assert_eq!(vm.registers().pc, 1);
    assert_eq!(vm.registers().sp, VM_STACK_SIZE);
    vm.step()?; // halt
    assert!(vm.is_halted());
    assert!(matches!(vm.step(), Err(Error::VmHalted)));
    Ok(())
}

#[test]
fn registers_after_three_steps() -> Result<(), Error> {
    let mut vm = PicocVm::new("");
    vm.load("__start__:\n call main\n halt\nmain:\n enter\n pushi 2147483647\n leave\n ret\n")?;
    for _ in 0..3 {
        vm.step()?;
    }
    let reg = vm.registers();
    assert_eq!(reg.pc, 4);
    assert_eq!(reg.sp, VM_STACK_SIZE - 3);
    assert_eq!(reg.fp, VM_STACK_SIZE - 2);
    Ok(())
}

#[test]
fn stack_view_after_run() -> Result<(), Error> {
    let mut vm = PicocVm::new("");
    vm.load("pushi 4\npushi 5\npushi 6\npushi 7\nadd\n")?;
    vm.run_until_halt()?;
    assert_eq!(vm.stack(), &[13, 5, 4]);
    Ok(())
}

#[test]
fn read_trims_and_accepts_last_line_without_feed() -> Result<(), Error> {
    let mut vm = PicocVm::new("  42  \n7");
    vm.load("rd\nrd\nwr\nwr\n")?;
    vm.run_until_halt()?;
    assert_eq!(vm.output(), "? ? 7 42 ");
    Ok(())
}

#[test]
fn read_at_end_of_input_fails() -> Result<(), Error> {
    let mut vm = PicocVm::new("");
    vm.load("rd\n")?;
    assert!(matches!(vm.step(), Err(Error::ParseIntError(_))));
    assert_eq!(vm.output(), "? ");
    Ok(())
}

#[test]
fn interactive_read_waits_for_a_line() -> Result<(), Error> {
    let mut vm = PicocVm::interactive();
    vm.load("rd\nwr\n")?;
    vm.run_until_halt()?;
    assert!(vm.awaiting_input());
    assert_eq!(vm.registers().pc, 0);
    assert_eq!(vm.take_output(), "? ");
    vm.feed_input("1");
    vm.step()?;
    assert!(vm.awaiting_input());
    vm.feed_input("5\n");
    vm.run_until_halt()?;
    assert!(!vm.awaiting_input());
    assert_eq!(vm.take_output(), "15 ");
    Ok(())
}

#[test]
fn interactive_read_after_close_takes_the_rest() -> Result<(), Error> {
    let mut vm = PicocVm::interactive();
    vm.load("rd\nwr\n")?;
    vm.feed_input("-8");
    vm.close_input();
    vm.run_until_halt()?;
    assert_eq!(vm.output(), "? -8 ");
    Ok(())
}

#[test]
fn fault_operand_not_found() {
    let mut vm = PicocVm::new("");
    assert!(matches!(vm.load("pushi"), Err(Error::OperandNotFound)));
}

#[test]
fn fault_unknown_opcode() {
    let mut vm = PicocVm::new("");
    match vm.load("hoge") {
        Err(Error::UnknownOpcode(name)) => assert_eq!(name, "hoge"),
        _ => panic!("expected an unknown opcode"),
    }
}

#[test]
fn run_past_last_instruction_succeeds() -> Result<(), Error> {
    let mut vm = PicocVm::new("");
    vm.load("pushi 1\npushi 2\n")?;
    vm.run_until_halt()?;
    assert_eq!(vm.registers().pc, 2);
    assert!(matches!(vm.step(), Err(Error::MemoryOutOfBound)));
    Ok(())
}

#[test]
fn load_discards_previous_program() -> Result<(), Error> {
    let mut vm = PicocVm::new("");
    vm.load("first:\n pushi 9\n pushi 8\n enter\n halt\n")?;
    vm.run_until_halt()?;
    assert!(vm.is_halted());
    vm.load("pushl -1\n")?;
    assert!(!vm.is_halted());
    assert_eq!(vm.label_table().len(), 0);
    assert_eq!(vm.label_table().get("first"), None);
    assert_eq!(vm.inst_memory(), &[Opcode::Pushl(-1)]);
    assert_eq!(vm.registers().pc, 0);
    assert_eq!(vm.registers().sp, VM_STACK_SIZE);
    assert_eq!(vm.registers().fp, VM_STACK_SIZE);
    assert!(vm.stack().is_empty());
    vm.run_until_halt()?;
    assert_eq!(vm.stack(), &[0]);
    Ok(())
}

#[test]
fn failed_load_keeps_the_machine() -> Result<(), Error> {
    let mut vm = PicocVm::new("");
    vm.load("pushi 1\n")?;
    vm.step()?;
    assert!(vm.load("pushi 1\njp\n").is_err());
    assert_eq!(vm.inst_memory(), &[Opcode::Pushi(1)]);
    assert_eq!(vm.stack(), &[1]);
    Ok(())
}

#[test]
fn fault_label_not_found() -> Result<(), Error> {
    let mut vm = PicocVm::new("");
    vm.load("jp nowhere\n")?;
    match vm.run_until_halt() {
        Err(Error::LabelNotFound(name)) => assert_eq!(name, "nowhere"),
        other => panic!("unexpected {:?}", other),
    }
    vm.load("pushi 1\njt nowhere\n")?;
    vm.step()?;
    assert!(matches!(vm.step(), Err(Error::LabelNotFound(_))));
    assert_eq!(vm.stack(), &[1]);
    Ok(())
}

#[test]
fn call_to_unknown_label_stays_in_place() -> Result<(), Error> {
    let mut vm = PicocVm::new("");
    vm.load("call nowhere\n")?;
    vm.step()?;
    assert_eq!(vm.registers().pc, 0);
    assert_eq!(vm.stack(), &[1]);
    Ok(())
}

#[test]
fn conditional_jumps() -> Result<(), Error> {
    let mut vm = PicocVm::new("");
    vm.load("pushi 0\njt skip\npushi 5\nskip:\npushi 0\njf end\npushi 6\nend:\n")?;
    vm.run_until_halt()?;
    assert_eq!(vm.stack(), &[5]);
    Ok(())
}

#[test]
fn loop_counts_down() -> Result<(), Error> {
    let mut vm = PicocVm::new("");
    vm.load("pushi 3\nL:\npushl -1\nwr\npushl -1\npushi 1\nsub\nstorel -1\npushi 0\ngt\njt L\nhalt\n")?;
    vm.run_until_halt()?;
    assert!(vm.is_halted());
    assert_eq!(vm.output(), "3 2 1 ");
    assert_eq!(vm.stack(), &[0]);
    Ok(())
}

#[test]
fn fault_stack_overflow() -> Result<(), Error> {
    let mut vm = PicocVm::new("");
    vm.load("L:\npushi 1\njp L\n")?;
    assert!(matches!(vm.run_until_halt(), Err(Error::StackOverflow)));
    assert_eq!(vm.registers().sp, 0);
    Ok(())
}

#[test]
fn fault_stack_underflow() -> Result<(), Error> {
    let mut vm = PicocVm::new("");
    vm.load("pushi 1\nadd\n")?;
    assert!(matches!(vm.run_until_halt(), Err(Error::StackUnderflow)));
    assert_eq!(vm.stack(), &[1]);
    vm.load("wr\n")?;
    assert!(matches!(vm.step(), Err(Error::StackUnderflow)));
    Ok(())
}

#[test]
fn fault_stack_out_of_bound() -> Result<(), Error> {
    let mut vm = PicocVm::new("");
    vm.load("pushl 0\n")?;
    assert!(matches!(vm.step(), Err(Error::StackOutOfBound)));
    vm.load("mvsp 1\n")?;
    assert!(matches!(vm.step(), Err(Error::StackOutOfBound)));
    vm.load("pushi 1\nstoret -10000\n")?;
    vm.step()?;
    assert!(matches!(vm.step(), Err(Error::StackOutOfBound)));
    Ok(())
}

#[test]
fn fault_arithmetic() -> Result<(), Error> {
    let mut vm = PicocVm::new("");
    vm.load("pushi 1\npushi 0\ndiv\n")?;
    assert!(matches!(vm.run_until_halt(), Err(Error::ArithmeticError)));
    assert_eq!(vm.stack(), &[0, 1]);
    vm.load("pushi 2147483647\npushi 1\nadd\n")?;
    assert!(matches!(vm.run_until_halt(), Err(Error::ArithmeticError)));
    vm.load("pushi 5\npushi 0\nmod\n")?;
    assert!(matches!(vm.run_until_halt(), Err(Error::ArithmeticError)));
    Ok(())
}

#[test]
fn fault_parse_int_in_read() -> Result<(), Error> {
    let mut vm = PicocVm::new("abc\n4\n");
    vm.load("rd\n")?;
    assert!(matches!(vm.step(), Err(Error::ParseIntError(_))));
    vm.load("rd\nwr\n")?;
    vm.run_until_halt()?;
    assert_eq!(vm.output(), "? ? 4 ");
    Ok(())
}

#[test]
fn fault_program_too_large() {
    let mut vm = PicocVm::new("");
    let code = "halt\n".repeat(VM_INST_MEMORY_SIZE + 1);
    assert!(matches!(vm.load(&code), Err(Error::MemoryOutOfBound)));
}

#[test]
fn wrong_return_address_ends_the_run() -> Result<(), Error> {
    let mut vm = PicocVm::new("");
    vm.load("pushi -1\nret\n")?;
    vm.step()?;
    assert!(matches!(vm.step(), Err(Error::MemoryOutOfBound)));
    Ok(())
}

#[test]
fn wrln_writes_a_line_feed() -> Result<(), Error> {
    let mut vm = PicocVm::new("");
    vm.load("pushi -2147483648\nwr\nwrln\n")?;
    vm.run_until_halt()?;
    assert_eq!(vm.output(), "-2147483648 \n");
    Ok(())
}
