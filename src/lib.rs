//! A DCPU-16 emulator core and a small assembler for its mnemonic form.
//!
//! The instruction codec, the operand evaluator, the executor with its interrupt controller,
//! and the assembler are each stated over a mathematical model and proved against it.
use vstd::prelude::*;

pub mod alu;
pub mod assembly;
pub mod basic_op;
pub mod command;
pub mod machine;
pub mod register;
pub mod special_op;
pub mod value;

pub use assembly::{ParseError, generate_code, parse, parse_program};
pub use basic_op::BasicOp;
pub use command::{Command, cmd, decode_program};
pub use machine::{DCPU16, StepError, Target};
pub use register::Register;
pub use special_op::SpecialOp;
pub use value::{Value, get_next_word};
