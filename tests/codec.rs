use dcpu16::{BasicOp, Command, Register, SpecialOp, Value, cmd, decode_program, generate_code, get_next_word};

#[test]
fn register_codes_round_trip() {
    let regs = [Register::A, Register::B, Register::C, Register::X, Register::Y, Register::Z, Register::I, Register::J];
    for (i, r) in regs.iter().enumerate() {
        assert_eq!(r.code(), i as u16);
        assert_eq!(Register::new(i as u16), Some(*r));
    }
    assert_eq!(Register::new(8), None);
}

#[test]
fn value_codes() {
    assert_eq!(Value::new(0x00), Some(Value::Reg(Register::A)));
    assert_eq!(Value::new(0x0b), Some(Value::DerefReg(Register::X)));
    assert_eq!(Value::new(0x17), Some(Value::IndexReg(Register::J, 0)));
    assert_eq!(Value::new(0x18), Some(Value::STACK));
    assert_eq!(Value::new(0x1a), Some(Value::PICK(0)));
    assert_eq!(Value::new(0x1f), Some(Value::NextWord(0)));
    assert_eq!(Value::new(0x20), Some(Value::Literal(0xffff)));
    assert_eq!(Value::new(0x21), Some(Value::Literal(0)));
    assert_eq!(Value::new(0x3f), Some(Value::Literal(30)));
    assert_eq!(Value::new(0x40), None);
    assert_eq!(Value::Literal(0xffff).code(), 0x20);
    assert_eq!(Value::Literal(30).code(), 0x3f);
    assert_eq!(Value::IndexReg(Register::C, 9).code(), 0x12);
    for code in 0u16..0x40 {
        assert_eq!(Value::new(code).unwrap().code(), code);
    }
}

#[test]
fn value_cycles_count_next_words() {
    assert_eq!(Value::Reg(Register::A).cycles(), 0);
    assert_eq!(Value::IndexReg(Register::A, 1).cycles(), 1);
    assert_eq!(Value::PICK(2).cycles(), 1);
    assert_eq!(Value::DerefNextWord(3).cycles(), 1);
    assert_eq!(Value::NextWord(4).cycles(), 1);
    assert_eq!(Value::Literal(5).cycles(), 0);
    assert_eq!(get_next_word(&Value::NextWord(4)), Some(4));
    assert_eq!(get_next_word(&Value::PICK(7)), Some(7));
    assert_eq!(get_next_word(&Value::PEEK), None);
}

#[test]
fn op_tables() {
    assert_eq!(BasicOp::new(0x01), Some(BasicOp::SET));
    assert_eq!(BasicOp::new(0x1f), Some(BasicOp::STD));
    assert_eq!(BasicOp::new(0x18), None);
    assert_eq!(BasicOp::new(0x00), None);
    assert_eq!(BasicOp::DIV.cycles(), 3);
    assert_eq!(BasicOp::IFE.code(), 0x12);
    assert_eq!(SpecialOp::new(0x01), Some(SpecialOp::JSR));
    assert_eq!(SpecialOp::new(0x12), Some(SpecialOp::HWI));
    assert_eq!(SpecialOp::new(0x02), None);
    assert_eq!(SpecialOp::INT.cycles(), 4);
    assert_eq!(SpecialOp::IAQ.code(), 0x0c);
    assert_eq!(BasicOp::from_mnemonic(b's', b'h', b'l'), Some(BasicOp::SHL));
    assert_eq!(SpecialOp::from_mnemonic(b'r', b'f', b'i'), Some(SpecialOp::RFI));
    assert_eq!(BasicOp::from_mnemonic(b'r', b'f', b'i'), None);
}

#[test]
fn decode_set_a_next_word() {
    let c = Command::new(0x7c01).unwrap();
    assert_eq!(c, Command::Basic { op: BasicOp::SET, b: Value::Reg(Register::A), a: Value::NextWord(0) });
    assert_eq!(c.code(), 0x7c01);
    assert_eq!(c.get_size(), 2);
}

#[test]
fn decode_unassigned_words() {
    assert_eq!(Command::new(0x0000), None);
    assert_eq!(Command::new(0x0018), None);
    assert_eq!(Command::new(0x0040), None);
}

#[test]
fn special_opcode_lands_in_bits_five_to_nine() {
    let c = Command::Special { op: SpecialOp::JSR, a: Value::Literal(3) };
    assert_eq!(c.code(), (0x24 << 10) | (0x01 << 5));
    assert_eq!(Command::new(c.code()), Some(c));
}

#[test]
fn every_decodable_word_encodes_back() {
    let mut decodable = 0u32;
    for w in 0u32..0x10000 {
        let w = w as u16;
        if let Some(c) = Command::new(w) {
            assert_eq!(c.code(), w);
            decodable += 1;
        }
    }
    assert!(decodable > 0);
}

#[test]
fn packing_helper() {
    assert_eq!(cmd(0x01, 0x01, 0x1f), 0x7c21);
    assert_eq!(cmd(0x02, 0x00, 0x09), 0x2402);
}

struct Lcg(u64);

impl Lcg {
    fn next(&mut self) -> u16 {
        self.0 = self.0.wrapping_mul(6364136223846793005).wrapping_add(1442695040888963407);
        (self.0 >> 33) as u16
    }
}

fn random_value(rng: &mut Lcg, in_a: bool) -> Value {
    let regs = [Register::A, Register::B, Register::C, Register::X, Register::Y, Register::Z, Register::I, Register::J];
    let r = regs[(rng.next() % 8) as usize];
    let w = rng.next();
    match rng.next() % if in_a { 12 } else { 11 } {
        0 => Value::Reg(r),
        1 => Value::DerefReg(r),
        2 => Value::IndexReg(r, w),
        3 => Value::STACK,
        4 => Value::PEEK,
        5 => Value::PICK(w),
        6 => Value::SP,
        7 => Value::PC,
        8 => Value::EX,
        9 => Value::DerefNextWord(w),
        10 => Value::NextWord(w),
        _ => {
            let v = rng.next() % 32;
            Value::Literal(if v == 31 { 0xffff } else { v })
        }
    }
}

fn random_command(rng: &mut Lcg) -> Command {
    if rng.next() % 3 == 0 {
        loop {
            if let Some(op) = SpecialOp::new(rng.next() % 32) {
                return Command::Special { op, a: random_value(rng, true) };
            }
        }
    } else {
        loop {
            if let Some(op) = BasicOp::new(rng.next() % 32) {
                return Command::Basic { op, b: random_value(rng, false), a: random_value(rng, true) };
            }
        }
    }
}

#[test]
fn random_commands_round_trip() {
    let mut rng = Lcg(0x5eed);
    for _ in 0..100 {
        let c = random_command(&mut rng);
        let words = generate_code(vec![c]);
        assert_eq!(words.len(), c.get_size() as usize);
        assert_eq!(decode_program(&words), Some(vec![c]));
    }
}

#[test]
fn random_program_round_trip() {
    let mut rng = Lcg(42);
    let program: Vec<Command> = (0..100).map(|_| random_command(&mut rng)).collect();
    let words = generate_code(program.clone());
    assert_eq!(decode_program(&words), Some(program));
}

#[test]
fn truncated_stream_does_not_decode() {
    assert_eq!(decode_program(&vec![0x7c01]), None);
    assert_eq!(decode_program(&vec![]), Some(vec![]));
}

#[test]
fn mnemonics_from_str() {
    assert_eq!("ife".parse::<BasicOp>(), Ok(BasicOp::IFE));
    assert_eq!("std".parse::<BasicOp>(), Ok(BasicOp::STD));
    assert_eq!("SET".parse::<BasicOp>(), Err(()));
    assert_eq!("se".parse::<BasicOp>(), Err(()));
    assert_eq!("sett".parse::<BasicOp>(), Err(()));
    assert_eq!("jsr".parse::<BasicOp>(), Err(()));
    assert_eq!("hwq".parse::<SpecialOp>(), Ok(SpecialOp::HWQ));
    assert_eq!("set".parse::<SpecialOp>(), Err(()));
    assert_eq!("x".parse::<Register>(), Ok(Register::X));
    assert_eq!("ab".parse::<Register>(), Err(()));
    assert_eq!("q".parse::<Register>(), Err(()));
}

#[test]
fn packing_helper_without_bounds() {
    assert_eq!(cmd(0x21, 0, 0), 0x21);
    assert_eq!(cmd(0, 0, 0x41), 0x0400);
}
