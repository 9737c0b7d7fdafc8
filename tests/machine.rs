use dcpu16::{DCPU16, Register, StepError, generate_code, parse};

fn machine_with(words: &[u16]) -> DCPU16 {
    let mut rom = vec![0u16; 0x10000];
    rom[..words.len()].copy_from_slice(words);
    let mut m = DCPU16::new();
    m.load(rom.try_into().unwrap());
    m
}

fn assembled(src: &str) -> Vec<u16> {
    generate_code(parse(src).unwrap())
}

fn run(src: &str, steps: usize) -> DCPU16 {
    let mut m = machine_with(&assembled(src));
    for _ in 0..steps {
        m.step().unwrap();
    }
    m
}

fn run_to_error(m: &mut DCPU16) -> StepError {
    for _ in 0..10_000 {
        if let Err(e) = m.step() {
            return e;
        }
    }
    panic!("the program did not stop");
}

#[test]
fn fresh_machine_is_zero() {
    let m = DCPU16::new();
    assert_eq!(m.pc(), 0);
    assert_eq!(m.sp(), 0);
    assert_eq!(m.ex(), 0);
    assert_eq!(m.ia(), 0);
    assert_eq!(m.cycles(), 0);
    assert!(!m.interrupt_queueing());
    assert_eq!(m.reg(Register::J), 0);
    assert_eq!(m.mem(0xffff), 0);
}

#[test]
fn set_a_from_next_word() {
    let mut m = machine_with(&[0x7c01, 0x0030]);
    assert_eq!(m.step(), Ok(2));
    assert_eq!(m.reg(Register::A), 0x30);
    assert_eq!(m.pc(), 2);
    assert_eq!(m.cycles(), 2);
}

#[test]
fn add_overflow_sets_ex() {
    let m = run("set a, 65535; add a, 1;", 2);
    assert_eq!(m.reg(Register::A), 0x0000);
    assert_eq!(m.ex(), 1);
}

#[test]
fn sub_underflow_sets_ex() {
    let m = run("set a, 0; sub a, 1;", 2);
    assert_eq!(m.reg(Register::A), 0xffff);
    assert_eq!(m.ex(), 0xffff);
}

#[test]
fn div_by_zero_is_zero() {
    let m = run("set ex, 9; set a, 1234; div a, 0;", 3);
    assert_eq!(m.reg(Register::A), 0);
    assert_eq!(m.ex(), 0);
}

#[test]
fn shl_carries_into_ex() {
    let m = run("set a, 32768; shl a, 1;", 2);
    assert_eq!(m.reg(Register::A), 0x0000);
    assert_eq!(m.ex(), 0x0001);
}

#[test]
fn arithmetic_results() {
    let m = run("set a, 300; mul a, 300; set b, 65535; mli b, 2; set c, 7; div c, 2;", 6);
    assert_eq!(m.reg(Register::A), (90000u32 & 0xffff) as u16);
    assert_eq!(m.reg(Register::B), 0xfffe);
    assert_eq!(m.reg(Register::C), 3);
    assert_eq!(m.ex(), 0x8000);
    let m = run("set a, 65529; dvi a, 2; set b, 65529; mdi b, 2; set c, 7; mod c, 4;", 6);
    assert_eq!(m.reg(Register::A), (-3i16) as u16);
    assert_eq!(m.reg(Register::B), (-1i16) as u16);
    assert_eq!(m.reg(Register::C), 3);
    let m = run("set a, 32768; asr a, 4; set b, 32768; shr b, 4;", 4);
    assert_eq!(m.reg(Register::A), 0xf800);
    assert_eq!(m.reg(Register::B), 0x0800);
    assert_eq!(m.ex(), 0);
    let m = run("set a, 12; and a, 10; set b, 12; bor b, 10; set c, 12; xor c, 10;", 6);
    assert_eq!((m.reg(Register::A), m.reg(Register::B), m.reg(Register::C)), (8, 14, 6));
}

#[test]
fn signed_division_overflow_wraps() {
    let m = run("set a, 32768; dvi a, 65535; set b, 32768; mdi b, 65535;", 4);
    assert_eq!(m.reg(Register::A), 0x8000);
    assert_eq!(m.reg(Register::B), 0);
}

#[test]
fn add_and_subtract_with_excess() {
    let m = run("set ex, 1; set a, 65535; adx a, 0;", 3);
    assert_eq!(m.reg(Register::A), 0);
    assert_eq!(m.ex(), 1);
    let m = run("set ex, 0; set a, 0; sbx a, 1;", 3);
    assert_eq!(m.reg(Register::A), 0xffff);
    assert_eq!(m.ex(), 0xffff);
    let m = run("set ex, 5; set a, 10; sbx a, 3;", 3);
    assert_eq!(m.reg(Register::A), 12);
    assert_eq!(m.ex(), 0);
}

#[test]
fn sti_and_std_move_i_and_j() {
    let m = run("set i, 65535; sti a, 5;", 2);
    assert_eq!(m.reg(Register::A), 5);
    assert_eq!(m.reg(Register::I), 0);
    assert_eq!(m.reg(Register::J), 1);
    let m = run("std b, 6;", 1);
    assert_eq!(m.reg(Register::B), 6);
    assert_eq!(m.reg(Register::I), 0xffff);
    assert_eq!(m.reg(Register::J), 0xffff);
}

#[test]
fn loop_sums_one_to_ten() {
    let code = assembled("set b, 1001; set c, [1000]; add c, b; add a, [b]; add b, 1; ifl b, c; set pc, 5;");
    let mut m = machine_with(&code);
    let mut rom = vec![0u16; 0x10000];
    rom[..code.len()].copy_from_slice(&code);
    rom[1000] = 10;
    for i in 0..10 {
        rom[1001 + i] = (i + 1) as u16;
    }
    m.load(rom.try_into().unwrap());
    assert_eq!(run_to_error(&mut m), StepError::Decode);
    assert_eq!(m.reg(Register::A), 55);
}

#[test]
fn skip_chain_over_conditionals() {
    let mut m = machine_with(&assembled("ife 1,2; ife 1,1; set a, 1; set b, 2;"));
    assert_eq!(run_to_error(&mut m), StepError::Decode);
    assert_eq!(m.reg(Register::A), 0);
    assert_eq!(m.reg(Register::B), 2);
}

#[test]
fn failed_test_skips_next_words() {
    let mut m = machine_with(&assembled("ife 1,2; set [1000], 7; set b, 2;"));
    let before = m.cycles();
    assert_eq!(m.step(), Ok(6));
    assert_eq!(m.mem(1000), 0);
    assert_eq!(m.cycles() - before, 2 + 1 + 1 + 1);
    m.step().unwrap();
    assert_eq!(m.reg(Register::B), 2);
}

#[test]
fn passed_test_runs_next() {
    let m = run("ifg 5, 3; set a, 1;", 2);
    assert_eq!(m.reg(Register::A), 1);
}

#[test]
fn int_without_handler_does_nothing() {
    let mut m = machine_with(&assembled("set a, 9; int 7;"));
    m.step().unwrap();
    assert_eq!(m.step(), Ok(4));
    assert_eq!(m.reg(Register::A), 9);
    assert_eq!(m.sp(), 0);
    assert!(!m.interrupt_queueing());
    assert_eq!(m.mem(0xffff), 0);
}

#[test]
fn int_with_handler_enters_it() {
    let mut m = machine_with(&assembled("set a, 9; ias 4096; int 7;"));
    m.step().unwrap();
    m.step().unwrap();
    assert_eq!(m.step(), Ok(0x1000));
    assert_eq!(m.sp(), 0xfffe);
    assert_eq!(m.mem(0xffff), 6);
    assert_eq!(m.mem(0xfffe), 9);
    assert_eq!(m.pc(), 0x1000);
    assert_eq!(m.reg(Register::A), 7);
    assert!(m.interrupt_queueing());
}

#[test]
fn interrupt_entry_and_exit() {
    let code = assembled("ias 4096; int 66;");
    let handler = assembled("rfi 0;");
    let mut rom = vec![0u16; 0x10000];
    rom[..code.len()].copy_from_slice(&code);
    rom[0x1000..0x1000 + handler.len()].copy_from_slice(&handler);
    let mut m = DCPU16::new();
    m.load(rom.try_into().unwrap());
    for _ in 0..3 {
        m.step().unwrap();
    }
    assert_eq!(m.reg(Register::A), 0);
    assert_eq!(m.pc(), 4);
    assert_eq!(m.sp(), 0);
    assert!(!m.interrupt_queueing());
}

#[test]
fn queued_interrupt_is_taken_after_rfi() {
    let code = assembled("ias 4096; iaq 1; int 5; iaq 0;");
    let handler = assembled("rfi 0;");
    let mut rom = vec![0u16; 0x10000];
    rom[..code.len()].copy_from_slice(&code);
    rom[0x1000..0x1000 + handler.len()].copy_from_slice(&handler);
    let mut m = DCPU16::new();
    m.load(rom.try_into().unwrap());
    for _ in 0..3 {
        m.step().unwrap();
    }
    assert_eq!(m.queued_interrupts(), 1);
    assert_eq!(m.step(), Ok(8));
    // The waiting interrupt is taken before the next instruction, which is then the
    // handler's RFI: it returns at once.
    assert_eq!(m.step(), Ok(8));
    assert_eq!(m.queued_interrupts(), 0);
    assert_eq!(m.reg(Register::A), 0);
    assert_eq!(m.sp(), 0);
    assert!(!m.interrupt_queueing());
}

#[test]
fn queue_overflow_is_an_error() {
    let mut src = String::from("ias 4096; iaq 1;");
    for _ in 0..257 {
        src.push_str(" int 1;");
    }
    let mut m = machine_with(&assembled(&src));
    m.step().unwrap();
    m.step().unwrap();
    for _ in 0..256 {
        m.step().unwrap();
    }
    assert_eq!(m.queued_interrupts(), 256);
    assert_eq!(m.step(), Err(StepError::QueueOverflow));
}

#[test]
fn external_interrupt() {
    let mut m = DCPU16::new();
    assert_eq!(m.interrupt(3), Ok(()));
    assert_eq!(m.pc(), 0);
    let mut m = machine_with(&assembled("ias 4096;"));
    m.step().unwrap();
    assert_eq!(m.interrupt(3), Ok(()));
    assert_eq!(m.pc(), 0x1000);
    assert_eq!(m.reg(Register::A), 3);
}

#[test]
fn devices_are_absent() {
    let m = run("set a, 5; hwn a;", 2);
    assert_eq!(m.reg(Register::A), 0);
    let mut m = machine_with(&assembled("hwq 0;"));
    assert_eq!(m.step(), Err(StepError::Device));
    let mut m = machine_with(&assembled("hwi a;"));
    assert_eq!(m.step(), Err(StepError::Device));
}

#[test]
fn write_to_literal_is_dropped() {
    let mut m = machine_with(&assembled("set ex, 3; add 5, 65535;"));
    m.step().unwrap();
    assert_eq!(m.step(), Ok(5));
    assert_eq!(m.ex(), 3);
    assert_eq!(m.mem(3), 65535);
    assert_eq!(m.mem(4), 5);
}

#[test]
fn inline_literal_destination_is_read_only() {
    // SET with a = 0x21 (literal 0) and b = 0x1f (next word 9): nothing but PC moves.
    let mut m = machine_with(&[0x87e1, 9]);
    assert_eq!(m.step(), Ok(2));
    assert_eq!(m.mem(1), 9);
    assert_eq!(m.reg(Register::A), 0);
}

#[test]
fn stack_push_pop_and_jsr() {
    let m = run("set stack, 5; set a, stack;", 2);
    assert_eq!(m.reg(Register::A), 5);
    assert_eq!(m.sp(), 0);
    assert_eq!(m.mem(0xffff), 5);
    let m = run("jsr 10;", 1);
    assert_eq!(m.pc(), 10);
    assert_eq!(m.sp(), 0xffff);
    assert_eq!(m.mem(0xffff), 2);
}

#[test]
fn iag_and_ias() {
    let m = run("ias 300; iag b;", 2);
    assert_eq!(m.ia(), 300);
    assert_eq!(m.reg(Register::B), 300);
}

#[test]
fn pc_wraps_around_memory() {
    let jump = assembled("set pc, 65535;");
    let mut rom = vec![0u16; 0x10000];
    rom[..jump.len()].copy_from_slice(&jump);
    // SET A, next word: the next word is memory's first word.
    rom[0xffff] = 0x7c01;
    let mut m = DCPU16::new();
    m.load(rom.try_into().unwrap());
    assert_eq!(m.step(), Ok(0xffff));
    assert_eq!(m.step(), Ok(1));
    assert_eq!(m.reg(Register::A), jump[0]);
}

#[test]
fn registers_can_be_set() {
    let mut m = DCPU16::new();
    m.set_reg(Register::Z, 0xbeef);
    assert_eq!(m.reg(Register::Z), 0xbeef);
    assert_eq!(m.reg(Register::A), 0);
}
