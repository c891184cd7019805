use std::collections::HashMap;

use picoc_vm::{include_only_whitespace, load_inst, load_label, split_code, Error, LabelTable, Opcode};

fn line(tokens: &[&str]) -> Vec<String> {
    tokens.iter().map(|t| t.to_string()).collect()
}

#[test]
fn detect_whitespace() {
    assert!(include_only_whitespace(" \t \n "));
    assert!(include_only_whitespace("\r\n\r\n"));
    assert!(!include_only_whitespace("a\n"));
    assert!(!include_only_whitespace("これは空白ではありません"));
}

#[test]
fn split_testcode() {
    let code = "L0:\n
              \tpushi 10\n
              \tpushi  5\n
              \tpushi\t7\n
              \t# Addition\n
              \tADD\n
              \tmul\n
              \tWr # Pop and write a value\n
              \twrln\n
              \tjp L0";

    let tokens = split_code(code);

    assert_eq!(
        tokens,
        vec![
            vec!["L0".to_string(), ":".to_string()],
            vec!["pushi".to_string(), "10".to_string()],
            vec!["pushi".to_string(), "5".to_string()],
            vec!["pushi".to_string(), "7".to_string()],
            vec!["ADD".to_string()],
            vec!["mul".to_string()],
            vec!["Wr".to_string()],
            vec!["wrln".to_string()],
            vec!["jp".to_string(), "L0".to_string()],
        ]
    );
}

#[test]
fn give_labels_integers() {
    let code = vec![
        vec!["L0".to_string(), ":".to_string()],
        vec!["pushi".to_string(), "15".to_string()],
        vec!["jp".to_string(), "L1".to_string()],
        vec!["L1".to_string(), ":".to_string()],
        vec!["wr".to_string()],
        vec!["L2".to_string(), ":".to_string()],
        vec!["jp".to_string(), "L0".to_string()],
    ];
    let mut table = LabelTable::new();

    load_label(&code, &mut table);

    let got: HashMap<String, usize> = table.entries().into_iter().collect();
    assert_eq!(
        got,
        HashMap::from([
            ("L0".to_string(), 0),
            ("L1".to_string(), 2),
            ("L2".to_string(), 3),
        ])
    );
}

#[test]
fn code_to_opcode() {
    let code = vec![
        vec!["L0".to_string(), ":".to_string()],
        vec!["pushi".to_string(), "10".to_string()],
        vec!["pushi".to_string(), "5".to_string()],
        vec!["pushi".to_string(), "7".to_string()],
        vec!["ADD".to_string()],
        vec!["mul".to_string()],
        vec!["Wr".to_string()],
        vec!["wrln".to_string()],
        vec!["jp".to_string(), "L0".to_string()],
    ];
    let mut memory = Vec::new();

    load_inst(&code, &mut memory).unwrap();

    assert_eq!(
        memory,
        vec![
            Opcode::Pushi(10),
            Opcode::Pushi(5),
            Opcode::Pushi(7),
            Opcode::Add,
            Opcode::Mul,
            Opcode::Wr,
            Opcode::Wrln,
            Opcode::Jp("L0".to_string())
        ]
    );
}

#[test]
fn tokenize_label_and_comment() {
    assert_eq!(
        split_code("L0: pushi 10 # comment"),
        vec![line(&["L0", ":", "pushi", "10"])]
    );
}

#[test]
fn tokenize_skips_blank_and_comment_lines() {
    assert_eq!(split_code("   \t \n# only a comment\n\n"), Vec::<Vec<String>>::new());
    assert_eq!(split_code(""), Vec::<Vec<String>>::new());
    assert_eq!(split_code("  halt  # stop\n\n  "), vec![line(&["halt"])]);
}

#[test]
fn tokenize_colon_rules() {
    assert_eq!(split_code("a: b:"), vec![line(&["a", ":", "b", ":"])]);
    assert_eq!(split_code(" : x"), vec![line(&["", ":", "x"])]);
    assert_eq!(split_code("x#y:\r\n"), vec![line(&["x"])]);
}

#[test]
fn labels_share_the_next_address() {
    let code = vec![line(&["A", ":"]), line(&["B", ":"]), line(&["halt"]), line(&["A", ":"])];
    let mut table = LabelTable::new();
    load_label(&code, &mut table);
    assert_eq!(table.len(), 2);
    assert_eq!(table.get("A"), Some(1));
    assert_eq!(table.get("B"), Some(0));
    assert_eq!(table.get("C"), None);
}

#[test]
fn from_line_ignores_case_and_reads_signs() {
    assert_eq!(Opcode::from_line(&line(&["PUSHI", "5"])).unwrap(), Opcode::Pushi(5));
    assert_eq!(Opcode::from_line(&line(&["Mvsp", "-3"])).unwrap(), Opcode::Mvsp(-3));
    assert_eq!(Opcode::from_line(&line(&["storet", "+7"])).unwrap(), Opcode::Storet(7));
    assert_eq!(Opcode::from_line(&line(&["CALL", "Main"])).unwrap(), Opcode::Call("Main".to_string()));
    assert_eq!(Opcode::from_line(&line(&["Halt", "extra"])).unwrap(), Opcode::Halt);
    assert_eq!(
        Opcode::from_line(&line(&["pushi", "2147483647"])).unwrap(),
        Opcode::Pushi(2147483647)
    );
    assert_eq!(
        Opcode::from_line(&line(&["pushi", "-2147483648"])).unwrap(),
        Opcode::Pushi(-2147483648)
    );
}

#[test]
fn from_line_errors() {
    assert!(matches!(Opcode::from_line(&Vec::new()), Err(Error::OpcodeNotFound)));
    assert!(matches!(Opcode::from_line(&line(&["pushi"])), Err(Error::OperandNotFound)));
    assert!(matches!(Opcode::from_line(&line(&["jt"])), Err(Error::OperandNotFound)));
    assert!(matches!(Opcode::from_line(&line(&["pushi", "x1"])), Err(Error::ParseIntError(_))));
    assert!(matches!(Opcode::from_line(&line(&["pushi", "2147483648"])), Err(Error::ParseIntError(_))));
    assert!(matches!(Opcode::from_line(&line(&["pushi", "-"])), Err(Error::ParseIntError(_))));
    match Opcode::from_line(&line(&["HOGE", "1"])) {
        Err(Error::UnknownOpcode(name)) => assert_eq!(name, "hoge"),
        other => panic!("unexpected {:?}", other),
    }
}

#[test]
fn load_inst_stops_at_first_error() {
    let code = vec![line(&["pushi", "1"]), line(&["bogus"]), line(&["pushi"])];
    let mut memory = vec![Opcode::Halt];
    match load_inst(&code, &mut memory) {
        Err(Error::UnknownOpcode(name)) => assert_eq!(name, "bogus"),
        other => panic!("unexpected {:?}", other),
    }
    assert!(memory.is_empty());
}

#[test]
fn render_instructions() {
    assert_eq!(Opcode::Pushi(-123).to_string(), "pushi -123");
    assert_eq!(Opcode::Pushl(0).to_string(), "pushl 0");
    assert_eq!(Opcode::Storel(i32::MIN).to_string(), "storel -2147483648");
    assert_eq!(Opcode::Mvsp(1024).to_string(), "mvsp 1024");
    assert_eq!(Opcode::Call("main".to_string()).to_string(), "call main");
    assert_eq!(Opcode::Jf(".L3".to_string()).to_string(), "jf .L3");
    assert_eq!(Opcode::Wrln.to_string(), "wrln");
    assert_eq!(Opcode::Halt.to_string(), "halt");
}

#[test]
fn error_messages() {
    assert_eq!(Error::UnknownOpcode("hoge".to_string()).message(), "Unknown opcode 'hoge' is found");
    assert_eq!(Error::OperandNotFound.message(), "Operand is not found");
    assert_eq!(Error::LabelNotFound("f".to_string()).message(), "Label 'f' is not found");
    assert_eq!(Error::VmHalted.message(), "VM is already halted");
}
