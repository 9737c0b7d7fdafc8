use vstd::prelude::*;
use crate::register::Register;

verus! {

/// An operand in one of the eleven addressing modes.
///
/// The modes that read a word following the instruction carry that word.
#[derive(Debug, Clone, Copy, PartialEq, Eq, Structural)]
pub enum Value {
    /// The register itself.
    Reg(Register),
    /// Memory at the register's value.
    DerefReg(Register),
    /// Memory at the register's value plus the next word (wrapping).
    IndexReg(Register, u16),
    /// PUSH (`[--SP]`) in the b slot, POP (`[SP++]`) in the a slot.
    STACK,
    /// Memory at SP.
    PEEK,
    /// Memory at SP plus the next word (wrapping).
    PICK(u16),
    SP,
    PC,
    EX,
    /// Memory at the next word.
    DerefNextWord(u16),
    /// The next word itself, as a literal.
    NextWord(u16),
    /// An inline literal in -1..30, held as its 16-bit two's complement.
    Literal(u16),
}

/// The inline literal that operand code `val` (in 0x20..0x3f) stands for.
pub open spec fn literal_of_code(val: u16) -> u16 {
    if val == 0x20 {
        0xffff
    } else {
        (val - 0x21) as u16
    }
}

impl Value {
    /// The 6-bit operand code of the value.
    pub open spec fn spec_code(self) -> u16 {
        match self {
            Value::Reg(r) => r.spec_code(),
            Value::DerefReg(r) => (0x08 + r.spec_code()) as u16,
            Value::IndexReg(r, _) => (0x10 + r.spec_code()) as u16,
            Value::STACK => 0x18,
            Value::PEEK => 0x19,
            Value::PICK(_) => 0x1a,
            Value::SP => 0x1b,
            Value::PC => 0x1c,
            Value::EX => 0x1d,
            Value::DerefNextWord(_) => 0x1e,
            Value::NextWord(_) => 0x1f,
            Value::Literal(v) => ((v + 0x21) % 0x10000) as u16,
        }
    }

    /// Whether the operand reads a word that follows the instruction word.
    pub open spec fn has_next_word(self) -> bool {
        match self {
            Value::IndexReg(_, _) | Value::PICK(_) | Value::DerefNextWord(_) | Value::NextWord(_) => true,
            _ => false,
        }
    }

    /// The word that follows the instruction for this operand (0 where there is none).
    pub open spec fn next_word_of(self) -> u16 {
        match self {
            Value::IndexReg(_, w) | Value::PICK(w) | Value::DerefNextWord(w) | Value::NextWord(w) => w,
            _ => 0,
        }
    }

    /// The same operand, carrying `w` as its next word where it has one.
    pub open spec fn with_next_word(self, w: u16) -> Value {
        match self {
            Value::IndexReg(r, _) => Value::IndexReg(r, w),
            Value::PICK(_) => Value::PICK(w),
            Value::DerefNextWord(_) => Value::DerefNextWord(w),
            Value::NextWord(_) => Value::NextWord(w),
            _ => self,
        }
    }

    /// The operand that code `val` stands for, with its next word (if any) zero.
    pub open spec fn spec_new(val: u16) -> Option<Value> {
        if val < 0x08 {
            Some(Value::Reg(Register::spec_new(val).unwrap()))
        } else if val < 0x10 {
            Some(Value::DerefReg(Register::spec_new((val - 0x08) as u16).unwrap()))
        } else if val < 0x18 {
            Some(Value::IndexReg(Register::spec_new((val - 0x10) as u16).unwrap(), 0))
        } else if val == 0x18 {
            Some(Value::STACK)
        } else if val == 0x19 {
            Some(Value::PEEK)
        } else if val == 0x1a {
            Some(Value::PICK(0))
        } else if val == 0x1b {
            Some(Value::SP)
        } else if val == 0x1c {
            Some(Value::PC)
        } else if val == 0x1d {
            Some(Value::EX)
        } else if val == 0x1e {
            Some(Value::DerefNextWord(0))
        } else if val == 0x1f {
            Some(Value::NextWord(0))
        } else if val < 0x40 {
            Some(Value::Literal(literal_of_code(val)))
        } else {
            None
        }
    }

    /// A well-formed operand of the a slot: an inline literal lies in -1..30.
    pub open spec fn valid_in_a(self) -> bool {
        match self {
            Value::Literal(v) => v == 0xffff || v <= 30,
            _ => true,
        }
    }

    /// A well-formed operand of the b slot: its 5-bit field holds no inline literal.
    pub open spec fn valid_in_b(self) -> bool {
        !(self is Literal)
    }

    /// The extra cycles the operand costs: one for each next word it reads.
    pub open spec fn spec_cycles(self) -> usize {
        if self.has_next_word() {
            1
        } else {
            0
        }
    }

    /// Decodes a 6-bit operand code; operands with a next word get 0 as a placeholder.
    pub fn new(val: u16) -> (r: Option<Value>)
        ensures
            r == Value::spec_new(val),
            r is Some <==> val < 0x40,
            r matches Some(v) ==> v.spec_code() == val && v.next_word_of() == 0 && v.valid_in_a(),
    {
        if val <= 0x07 {
            if let Some(reg) = Register::new(val) {
                return Some(Value::Reg(reg));
            }
        } else if val <= 0x0f {
            if let Some(reg) = Register::new(val - 0x08) {
                return Some(Value::DerefReg(reg));
            }
        } else if val <= 0x17 {
            if let Some(reg) = Register::new(val - 0x10) {
                return Some(Value::IndexReg(reg, 0));
            }
        } else if 0x20 <= val && val <= 0x3f {
            let literal: u16 = if val == 0x20 {
                0xffff
            } else {
                val - 0x21
            };
            return Some(Value::Literal(literal));
        }
        match val {
            0x18 => Some(Value::STACK),
            0x19 => Some(Value::PEEK),
            0x1a => Some(Value::PICK(0)),
            0x1b => Some(Value::SP),
            0x1c => Some(Value::PC),
            0x1d => Some(Value::EX),
            0x1e => Some(Value::DerefNextWord(0)),
            0x1f => Some(Value::NextWord(0)),
            _ => None,
        }
    }

    /// The 6-bit operand code.
    pub fn code(&self) -> (r: u16)
        ensures
            r == self.spec_code(),
            self.valid_in_a() ==> r < 0x40,
            self.valid_in_b() ==> r < 0x20,
    {
        match self {
            Value::Reg(reg) => reg.code(),
            Value::DerefReg(reg) => 0x08 + reg.code(),
            Value::IndexReg(reg, _) => 0x10 + reg.code(),
            Value::STACK => 0x18,
            Value::PEEK => 0x19,
            Value::PICK(_) => 0x1a,
            Value::SP => 0x1b,
            Value::PC => 0x1c,
            Value::EX => 0x1d,
            Value::DerefNextWord(_) => 0x1e,
            Value::NextWord(_) => 0x1f,
            Value::Literal(literal) => literal.wrapping_add(0x21),
        }
    }

    /// The extra cycles the operand costs.
    pub fn cycles(&self) -> (r: usize)
        ensures
            r == self.spec_cycles(),
    {
        match self {
            Value::IndexReg(_, _) => 1,
            Value::PICK(_) => 1,
            Value::DerefNextWord(_) => 1,
            Value::NextWord(_) => 1,
            _ => 0,
        }
    }
}

/// The word that follows the instruction for this operand, if it reads one.
pub fn get_next_word(value: &Value) -> (r: Option<u16>)
    ensures
        r is Some <==> value.has_next_word(),
        r matches Some(w) ==> w == value.next_word_of(),
{
    match value {
        Value::IndexReg(_, word) => Some(*word),
        Value::PICK(word) => Some(*word),
        Value::DerefNextWord(word) => Some(*word),
        Value::NextWord(word) => Some(*word),
        _ => None,
    }
}

/// Decoding an operand code and encoding the result gives the code back.
pub proof fn lemma_value_decode_encode(val: u16)
    requires
        Value::spec_new(val) is Some,
    ensures
        Value::spec_new(val).unwrap().spec_code() == val,
{
}

/// Encoding a well-formed operand and decoding the code gives the operand back, up to
/// its next word, which the decoder takes from the word stream.
pub proof fn lemma_value_encode_decode(v: Value)
    requires
        v.valid_in_a(),
    ensures
        Value::spec_new(v.spec_code()) == Some(v.with_next_word(0)),
        Value::spec_new(v.spec_code()).unwrap().with_next_word(v.next_word_of()) == v,
{
}

} // verus!
