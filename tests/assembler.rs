use dcpu16::{BasicOp, Command, ParseError, Register, SpecialOp, Value, decode_program, generate_code, parse, parse_program};

#[test]
fn hex_literal_does_not_parse() {
    assert_eq!(parse("set a, 0x10;"), None);
}

#[test]
fn decimal_literal_parses() {
    assert_eq!(
        parse("set a, 16;"),
        Some(vec![Command::Basic { op: BasicOp::SET, b: Value::Reg(Register::A), a: Value::NextWord(16) }])
    );
}

#[test]
fn operand_forms() {
    let program = parse("set [a], [b + 3];\n  add [ 1000 ], pick;\nsub stack, peek; ifn sp,pc; xor ex, c;").unwrap();
    assert_eq!(
        program,
        vec![
            Command::Basic { op: BasicOp::SET, b: Value::DerefReg(Register::A), a: Value::IndexReg(Register::B, 3) },
            Command::Basic { op: BasicOp::ADD, b: Value::DerefNextWord(1000), a: Value::PICK(0) },
            Command::Basic { op: BasicOp::SUB, b: Value::STACK, a: Value::PEEK },
            Command::Basic { op: BasicOp::IFN, b: Value::SP, a: Value::PC },
            Command::Basic { op: BasicOp::XOR, b: Value::EX, a: Value::Reg(Register::C) },
        ]
    );
}

#[test]
fn special_statement() {
    assert_eq!(
        parse("  jsr 5 ; iaq [j];"),
        Some(vec![
            Command::Special { op: SpecialOp::JSR, a: Value::NextWord(5) },
            Command::Special { op: SpecialOp::IAQ, a: Value::DerefReg(Register::J) },
        ])
    );
}

#[test]
fn empty_and_blank_sources() {
    assert_eq!(parse(""), Some(vec![]));
    assert_eq!(parse(" \n\t "), Some(vec![]));
}

#[test]
fn largest_number_and_one_past() {
    assert!(parse("set a, 65535;").is_some());
    assert_eq!(parse("set a, 65536;"), None);
}

#[test]
fn parse_error_position() {
    assert_eq!(parse_program("set a, 1;\n  bogus a;"), Err(ParseError { position: 12 }));
    assert_eq!(parse_program("set a, 1"), Err(ParseError { position: 0 }));
    assert_eq!(parse("SET A, 1;"), None);
}

#[test]
fn generated_code_layout() {
    let program = parse("set b, 1001; add [b + 2], 7;").unwrap();
    assert_eq!(generate_code(program), vec![0x7c21, 1001, 0x7e22, 7, 2]);
}

#[test]
fn assemble_encode_decode_gives_parse() {
    let sources = [
        "set b, 1001; set c, [1000]; add c, b; add a, [b]; add b, 1; ifl b, c; set pc, 5;",
        "set [a], [b + 3]; add [1000], pick; sub stack, peek; jsr 7; rfi 0; hwn x;",
        "ife 1,2; ife 1,1; set a, 1; set b, 2;",
    ];
    for src in sources.iter() {
        let program = parse(src).unwrap();
        let words = generate_code(program.clone());
        assert_eq!(decode_program(&words), Some(program));
    }
}
