use vstd::prelude::*;
use vstd::string::StringSliceAdditionalSpecFns;

verus! {

/// The two-operand operations, each with a fixed 5-bit opcode and base cycle cost.
#[derive(Debug, Clone, Copy, PartialEq, Eq, Structural)]
pub enum BasicOp {
    SET,
    ADD,
    SUB,
    MUL,
    MLI,
    DIV,
    DVI,
    MOD,
    MDI,
    AND,
    BOR,
    XOR,
    SHR,
    ASR,
    SHL,
    IFB,
    IFC,
    IFE,
    IFN,
    IFG,
    IFA,
    IFL,
    IFU,
    ADX,
    SBX,
    STI,
    STD,
}

/// The three lower-case letters of a mnemonic, as bytes.
pub open spec fn letters(c0: char, c1: char, c2: char) -> Seq<u8> {
    seq![c0 as u8, c1 as u8, c2 as u8]
}

impl BasicOp {
    /// The 5-bit opcode.
    pub open spec fn spec_code(self) -> u16 {
        match self {
            BasicOp::SET => 0x01,
            BasicOp::ADD => 0x02,
            BasicOp::SUB => 0x03,
            BasicOp::MUL => 0x04,
            BasicOp::MLI => 0x05,
            BasicOp::DIV => 0x06,
            BasicOp::DVI => 0x07,
            BasicOp::MOD => 0x08,
            BasicOp::MDI => 0x09,
            BasicOp::AND => 0x0a,
            BasicOp::BOR => 0x0b,
            BasicOp::XOR => 0x0c,
            BasicOp::SHR => 0x0d,
            BasicOp::ASR => 0x0e,
            BasicOp::SHL => 0x0f,
            BasicOp::IFB => 0x10,
            BasicOp::IFC => 0x11,
            BasicOp::IFE => 0x12,
            BasicOp::IFN => 0x13,
            BasicOp::IFG => 0x14,
            BasicOp::IFA => 0x15,
            BasicOp::IFL => 0x16,
            BasicOp::IFU => 0x17,
            BasicOp::ADX => 0x1a,
            BasicOp::SBX => 0x1b,
            BasicOp::STI => 0x1e,
            BasicOp::STD => 0x1f,
        }
    }

    /// The operation that opcode `val` stands for, if any.
    pub open spec fn spec_new(val: u16) -> Option<BasicOp> {
        match val {
            0x01 => Some(BasicOp::SET),
            0x02 => Some(BasicOp::ADD),
            0x03 => Some(BasicOp::SUB),
            0x04 => Some(BasicOp::MUL),
            0x05 => Some(BasicOp::MLI),
            0x06 => Some(BasicOp::DIV),
            0x07 => Some(BasicOp::DVI),
            0x08 => Some(BasicOp::MOD),
            0x09 => Some(BasicOp::MDI),
            0x0a => Some(BasicOp::AND),
            0x0b => Some(BasicOp::BOR),
            0x0c => Some(BasicOp::XOR),
            0x0d => Some(BasicOp::SHR),
            0x0e => Some(BasicOp::ASR),
            0x0f => Some(BasicOp::SHL),
            0x10 => Some(BasicOp::IFB),
            0x11 => Some(BasicOp::IFC),
            0x12 => Some(BasicOp::IFE),
            0x13 => Some(BasicOp::IFN),
            0x14 => Some(BasicOp::IFG),
            0x15 => Some(BasicOp::IFA),
            0x16 => Some(BasicOp::IFL),
            0x17 => Some(BasicOp::IFU),
            0x1a => Some(BasicOp::ADX),
            0x1b => Some(BasicOp::SBX),
            0x1e => Some(BasicOp::STI),
            0x1f => Some(BasicOp::STD),
            _ => None,
        }
    }

    /// The base cost in cycles.
    pub open spec fn spec_cycles(self) -> usize {
        match self {
            BasicOp::SET => 1,
            BasicOp::ADD => 2,
            BasicOp::SUB => 2,
            BasicOp::MUL => 2,
            BasicOp::MLI => 2,
            BasicOp::DIV => 3,
            BasicOp::DVI => 3,
            BasicOp::MOD => 3,
            BasicOp::MDI => 3,
            BasicOp::AND => 1,
            BasicOp::BOR => 1,
            BasicOp::XOR => 1,
            BasicOp::SHR => 1,
            BasicOp::ASR => 1,
            BasicOp::SHL => 1,
            BasicOp::IFB => 2,
            BasicOp::IFC => 2,
            BasicOp::IFE => 2,
            BasicOp::IFN => 2,
            BasicOp::IFG => 2,
            BasicOp::IFA => 2,
            BasicOp::IFL => 2,
            BasicOp::IFU => 2,
            BasicOp::ADX => 3,
            BasicOp::SBX => 3,
            BasicOp::STI => 2,
            BasicOp::STD => 2,
        }
    }

    /// The lower-case mnemonic of the operation.
    pub open spec fn mnemonic(self) -> Seq<u8> {
        match self {
            BasicOp::SET => letters('s', 'e', 't'),
            BasicOp::ADD => letters('a', 'd', 'd'),
            BasicOp::SUB => letters('s', 'u', 'b'),
            BasicOp::MUL => letters('m', 'u', 'l'),
            BasicOp::MLI => letters('m', 'l', 'i'),
            BasicOp::DIV => letters('d', 'i', 'v'),
            BasicOp::DVI => letters('d', 'v', 'i'),
            BasicOp::MOD => letters('m', 'o', 'd'),
            BasicOp::MDI => letters('m', 'd', 'i'),
            BasicOp::AND => letters('a', 'n', 'd'),
            BasicOp::BOR => letters('b', 'o', 'r'),
            BasicOp::XOR => letters('x', 'o', 'r'),
            BasicOp::SHR => letters('s', 'h', 'r'),
            BasicOp::ASR => letters('a', 's', 'r'),
            BasicOp::SHL => letters('s', 'h', 'l'),
            BasicOp::IFB => letters('i', 'f', 'b'),
            BasicOp::IFC => letters('i', 'f', 'c'),
            BasicOp::IFE => letters('i', 'f', 'e'),
            BasicOp::IFN => letters('i', 'f', 'n'),
            BasicOp::IFG => letters('i', 'f', 'g'),
            BasicOp::IFA => letters('i', 'f', 'a'),
            BasicOp::IFL => letters('i', 'f', 'l'),
            BasicOp::IFU => letters('i', 'f', 'u'),
            BasicOp::ADX => letters('a', 'd', 'x'),
            BasicOp::SBX => letters('s', 'b', 'x'),
            BasicOp::STI => letters('s', 't', 'i'),
            BasicOp::STD => letters('s', 't', 'd'),
        }
    }

    pub fn new(val: u16) -> (r: Option<BasicOp>)
        ensures
            r == BasicOp::spec_new(val),
            r matches Some(op) ==> op.spec_code() == val,
    {
        match val {
            0x01 => Some(BasicOp::SET),
            0x02 => Some(BasicOp::ADD),
            0x03 => Some(BasicOp::SUB),
            0x04 => Some(BasicOp::MUL),
            0x05 => Some(BasicOp::MLI),
            0x06 => Some(BasicOp::DIV),
            0x07 => Some(BasicOp::DVI),
            0x08 => Some(BasicOp::MOD),
            0x09 => Some(BasicOp::MDI),
            0x0a => Some(BasicOp::AND),
            0x0b => Some(BasicOp::BOR),
            0x0c => Some(BasicOp::XOR),
            0x0d => Some(BasicOp::SHR),
            0x0e => Some(BasicOp::ASR),
            0x0f => Some(BasicOp::SHL),
            0x10 => Some(BasicOp::IFB),
            0x11 => Some(BasicOp::IFC),
            0x12 => Some(BasicOp::IFE),
            0x13 => Some(BasicOp::IFN),
            0x14 => Some(BasicOp::IFG),
            0x15 => Some(BasicOp::IFA),
            0x16 => Some(BasicOp::IFL),
            0x17 => Some(BasicOp::IFU),
            0x1a => Some(BasicOp::ADX),
            0x1b => Some(BasicOp::SBX),
            0x1e => Some(BasicOp::STI),
            0x1f => Some(BasicOp::STD),
            _ => None,
        }
    }

    pub fn code(&self) -> (r: u16)
        ensures
            r == self.spec_code(),
            BasicOp::spec_new(r) == Some(*self),
            0 < r < 0x20,
    {
        match self {
            BasicOp::SET => 0x01,
            BasicOp::ADD => 0x02,
            BasicOp::SUB => 0x03,
            BasicOp::MUL => 0x04,
            BasicOp::MLI => 0x05,
            BasicOp::DIV => 0x06,
            BasicOp::DVI => 0x07,
            BasicOp::MOD => 0x08,
            BasicOp::MDI => 0x09,
            BasicOp::AND => 0x0a,
            BasicOp::BOR => 0x0b,
            BasicOp::XOR => 0x0c,
            BasicOp::SHR => 0x0d,
            BasicOp::ASR => 0x0e,
            BasicOp::SHL => 0x0f,
            BasicOp::IFB => 0x10,
            BasicOp::IFC => 0x11,
            BasicOp::IFE => 0x12,
            BasicOp::IFN => 0x13,
            BasicOp::IFG => 0x14,
            BasicOp::IFA => 0x15,
            BasicOp::IFL => 0x16,
            BasicOp::IFU => 0x17,
            BasicOp::ADX => 0x1a,
            BasicOp::SBX => 0x1b,
            BasicOp::STI => 0x1e,
            BasicOp::STD => 0x1f,
        }
    }

    pub fn cycles(&self) -> (r: usize)
        ensures
            r == self.spec_cycles(),
    {
        match self {
            BasicOp::SET => 1,
            BasicOp::ADD => 2,
            BasicOp::SUB => 2,
            BasicOp::MUL => 2,
            BasicOp::MLI => 2,
            BasicOp::DIV => 3,
            BasicOp::DVI => 3,
            BasicOp::MOD => 3,
            BasicOp::MDI => 3,
            BasicOp::AND => 1,
            BasicOp::BOR => 1,
            BasicOp::XOR => 1,
            BasicOp::SHR => 1,
            BasicOp::ASR => 1,
            BasicOp::SHL => 1,
            BasicOp::IFB => 2,
            BasicOp::IFC => 2,
            BasicOp::IFE => 2,
            BasicOp::IFN => 2,
            BasicOp::IFG => 2,
            BasicOp::IFA => 2,
            BasicOp::IFL => 2,
            BasicOp::IFU => 2,
            BasicOp::ADX => 3,
            BasicOp::SBX => 3,
            BasicOp::STI => 2,
            BasicOp::STD => 2,
        }
    }

    /// Reads an operation from its three-letter mnemonic.
    pub fn from_mnemonic(c0: u8, c1: u8, c2: u8) -> (r: Option<BasicOp>)
        ensures
            r matches Some(op) ==> op.mnemonic() == seq![c0, c1, c2],
            r is None ==> forall|op: BasicOp| op.mnemonic() != seq![c0, c1, c2],
    {
        if c0 == 's' as u8 && c1 == 'e' as u8 && c2 == 't' as u8 {
            return Some(BasicOp::SET);
        }
        if c0 == 'a' as u8 && c1 == 'd' as u8 && c2 == 'd' as u8 {
            return Some(BasicOp::ADD);
        }
        if c0 == 's' as u8 && c1 == 'u' as u8 && c2 == 'b' as u8 {
            return Some(BasicOp::SUB);
        }
        if c0 == 'm' as u8 && c1 == 'u' as u8 && c2 == 'l' as u8 {
            return Some(BasicOp::MUL);
        }
        if c0 == 'm' as u8 && c1 == 'l' as u8 && c2 == 'i' as u8 {
            return Some(BasicOp::MLI);
        }
        if c0 == 'd' as u8 && c1 == 'i' as u8 && c2 == 'v' as u8 {
            return Some(BasicOp::DIV);
        }
        if c0 == 'd' as u8 && c1 == 'v' as u8 && c2 == 'i' as u8 {
            return Some(BasicOp::DVI);
        }
        if c0 == 'm' as u8 && c1 == 'o' as u8 && c2 == 'd' as u8 {
            return Some(BasicOp::MOD);
        }
        if c0 == 'm' as u8 && c1 == 'd' as u8 && c2 == 'i' as u8 {
            return Some(BasicOp::MDI);
        }
        if c0 == 'a' as u8 && c1 == 'n' as u8 && c2 == 'd' as u8 {
            return Some(BasicOp::AND);
        }
        if c0 == 'b' as u8 && c1 == 'o' as u8 && c2 == 'r' as u8 {
            return Some(BasicOp::BOR);
        }
        if c0 == 'x' as u8 && c1 == 'o' as u8 && c2 == 'r' as u8 {
            return Some(BasicOp::XOR);
        }
        if c0 == 's' as u8 && c1 == 'h' as u8 && c2 == 'r' as u8 {
            return Some(BasicOp::SHR);
        }
        if c0 == 'a' as u8 && c1 == 's' as u8 && c2 == 'r' as u8 {
            return Some(BasicOp::ASR);
        }
        if c0 == 's' as u8 && c1 == 'h' as u8 && c2 == 'l' as u8 {
            return Some(BasicOp::SHL);
        }
        if c0 == 'i' as u8 && c1 == 'f' as u8 && c2 == 'b' as u8 {
            return Some(BasicOp::IFB);
        }
        if c0 == 'i' as u8 && c1 == 'f' as u8 && c2 == 'c' as u8 {
            return Some(BasicOp::IFC);
        }
        if c0 == 'i' as u8 && c1 == 'f' as u8 && c2 == 'e' as u8 {
            return Some(BasicOp::IFE);
        }
        if c0 == 'i' as u8 && c1 == 'f' as u8 && c2 == 'n' as u8 {
            return Some(BasicOp::IFN);
        }
        if c0 == 'i' as u8 && c1 == 'f' as u8 && c2 == 'g' as u8 {
            return Some(BasicOp::IFG);
        }
        if c0 == 'i' as u8 && c1 == 'f' as u8 && c2 == 'a' as u8 {
            return Some(BasicOp::IFA);
        }
        if c0 == 'i' as u8 && c1 == 'f' as u8 && c2 == 'l' as u8 {
            return Some(BasicOp::IFL);
        }
        if c0 == 'i' as u8 && c1 == 'f' as u8 && c2 == 'u' as u8 {
            return Some(BasicOp::IFU);
        }
        if c0 == 'a' as u8 && c1 == 'd' as u8 && c2 == 'x' as u8 {
            return Some(BasicOp::ADX);
        }
        if c0 == 's' as u8 && c1 == 'b' as u8 && c2 == 'x' as u8 {
            return Some(BasicOp::SBX);
        }
        if c0 == 's' as u8 && c1 == 't' as u8 && c2 == 'i' as u8 {
            return Some(BasicOp::STI);
        }
        if c0 == 's' as u8 && c1 == 't' as u8 && c2 == 'd' as u8 {
            return Some(BasicOp::STD);
        }
        proof {
            assert forall|op: BasicOp| op.mnemonic() != seq![c0, c1, c2] by {
                if op.mnemonic() == seq![c0, c1, c2] {
                    assert(op.mnemonic()[0] == c0 && op.mnemonic()[1] == c1 && op.mnemonic()[2] == c2);
                }
            }
        }
        None
    }

    /// Whether the operation is one of the conditionals IFB..IFU.
    pub open spec fn is_conditional(self) -> bool {
        0x10 <= self.spec_code() <= 0x17
    }

    /// Whether the operation is one of the conditionals IFB..IFU.
    pub fn conditional(&self) -> (r: bool)
        ensures
            r == self.is_conditional(),
    {
        let c = self.code();
        0x10 <= c && c <= 0x17
    }
}


impl std::str::FromStr for BasicOp {
    type Err = ();

    /// Reads an operation from its lower-case mnemonic.
    fn from_str(s: &str) -> (r: Result<Self, Self::Err>)
        ensures
            r matches Ok(op) ==> op.mnemonic() == s.spec_bytes(),
            r is Err ==> forall|op: BasicOp| op.mnemonic() != s.spec_bytes(),
    {
        let b = s.as_bytes();
        if b.len() != 3 {
            assert forall|op: BasicOp| op.mnemonic() != s.spec_bytes() by {
                assert(op.mnemonic().len() == 3);
            }
            return Err(());
        }
        assert(b@ =~= seq![b@[0], b@[1], b@[2]]);
        match BasicOp::from_mnemonic(b[0], b[1], b[2]) {
            Some(op) => Ok(op),
            None => Err(()),
        }
    }
}

} // verus!
