use vstd::prelude::*;
use vstd::string::StringSliceAdditionalSpecFns;
use crate::basic_op::letters;

verus! {

/// The one-operand operations, each with a fixed 5-bit opcode and base cycle cost.
#[derive(Debug, Clone, Copy, PartialEq, Eq, Structural)]
pub enum SpecialOp {
    JSR,
    INT,
    IAG,
    IAS,
    RFI,
    IAQ,
    HWN,
    HWQ,
    HWI,
}

impl SpecialOp {
    /// The 5-bit opcode.
    pub open spec fn spec_code(self) -> u16 {
        match self {
            SpecialOp::JSR => 0x01,
            SpecialOp::INT => 0x08,
            SpecialOp::IAG => 0x09,
            SpecialOp::IAS => 0x0a,
            SpecialOp::RFI => 0x0b,
            SpecialOp::IAQ => 0x0c,
            SpecialOp::HWN => 0x10,
            SpecialOp::HWQ => 0x11,
            SpecialOp::HWI => 0x12,
        }
    }

    /// The operation that opcode `val` stands for, if any.
    pub open spec fn spec_new(val: u16) -> Option<SpecialOp> {
        match val {
            0x01 => Some(SpecialOp::JSR),
            0x08 => Some(SpecialOp::INT),
            0x09 => Some(SpecialOp::IAG),
            0x0a => Some(SpecialOp::IAS),
            0x0b => Some(SpecialOp::RFI),
            0x0c => Some(SpecialOp::IAQ),
            0x10 => Some(SpecialOp::HWN),
            0x11 => Some(SpecialOp::HWQ),
            0x12 => Some(SpecialOp::HWI),
            _ => None,
        }
    }

    /// The base cost in cycles.
    pub open spec fn spec_cycles(self) -> usize {
        match self {
            SpecialOp::JSR => 3,
            SpecialOp::INT => 4,
            SpecialOp::IAG => 1,
            SpecialOp::IAS => 1,
            SpecialOp::RFI => 3,
            SpecialOp::IAQ => 2,
            SpecialOp::HWN => 2,
            SpecialOp::HWQ => 4,
            SpecialOp::HWI => 4,
        }
    }

    /// The lower-case mnemonic of the operation.
    pub open spec fn mnemonic(self) -> Seq<u8> {
        match self {
            SpecialOp::JSR => letters('j', 's', 'r'),
            SpecialOp::INT => letters('i', 'n', 't'),
            SpecialOp::IAG => letters('i', 'a', 'g'),
            SpecialOp::IAS => letters('i', 'a', 's'),
            SpecialOp::RFI => letters('r', 'f', 'i'),
            SpecialOp::IAQ => letters('i', 'a', 'q'),
            SpecialOp::HWN => letters('h', 'w', 'n'),
            SpecialOp::HWQ => letters('h', 'w', 'q'),
            SpecialOp::HWI => letters('h', 'w', 'i'),
        }
    }

    pub fn new(val: u16) -> (r: Option<SpecialOp>)
        ensures
            r == SpecialOp::spec_new(val),
            r matches Some(op) ==> op.spec_code() == val,
    {
        match val {
            0x01 => Some(SpecialOp::JSR),
            0x08 => Some(SpecialOp::INT),
            0x09 => Some(SpecialOp::IAG),
            0x0a => Some(SpecialOp::IAS),
            0x0b => Some(SpecialOp::RFI),
            0x0c => Some(SpecialOp::IAQ),
            0x10 => Some(SpecialOp::HWN),
            0x11 => Some(SpecialOp::HWQ),
            0x12 => Some(SpecialOp::HWI),
            _ => None,
        }
    }

    pub fn code(&self) -> (r: u16)
        ensures
            r == self.spec_code(),
            SpecialOp::spec_new(r) == Some(*self),
            0 < r < 0x20,
    {
        match self {
            SpecialOp::JSR => 0x01,
            SpecialOp::INT => 0x08,
            SpecialOp::IAG => 0x09,
            SpecialOp::IAS => 0x0a,
            SpecialOp::RFI => 0x0b,
            SpecialOp::IAQ => 0x0c,
            SpecialOp::HWN => 0x10,
            SpecialOp::HWQ => 0x11,
            SpecialOp::HWI => 0x12,
        }
    }

    pub fn cycles(&self) -> (r: usize)
        ensures
            r == self.spec_cycles(),
    {
        match self {
            SpecialOp::JSR => 3,
            SpecialOp::INT => 4,
            SpecialOp::IAG => 1,
            SpecialOp::IAS => 1,
            SpecialOp::RFI => 3,
            SpecialOp::IAQ => 2,
            SpecialOp::HWN => 2,
            SpecialOp::HWQ => 4,
            SpecialOp::HWI => 4,
        }
    }

    /// Reads an operation from its three-letter mnemonic.
    pub fn from_mnemonic(c0: u8, c1: u8, c2: u8) -> (r: Option<SpecialOp>)
        ensures
            r matches Some(op) ==> op.mnemonic() == seq![c0, c1, c2],
            r is None ==> forall|op: SpecialOp| op.mnemonic() != seq![c0, c1, c2],
    {
        if c0 == 'j' as u8 && c1 == 's' as u8 && c2 == 'r' as u8 {
            return Some(SpecialOp::JSR);
        }
        if c0 == 'i' as u8 && c1 == 'n' as u8 && c2 == 't' as u8 {
            return Some(SpecialOp::INT);
        }
        if c0 == 'i' as u8 && c1 == 'a' as u8 && c2 == 'g' as u8 {
            return Some(SpecialOp::IAG);
        }
        if c0 == 'i' as u8 && c1 == 'a' as u8 && c2 == 's' as u8 {
            return Some(SpecialOp::IAS);
        }
        if c0 == 'r' as u8 && c1 == 'f' as u8 && c2 == 'i' as u8 {
            return Some(SpecialOp::RFI);
        }
        if c0 == 'i' as u8 && c1 == 'a' as u8 && c2 == 'q' as u8 {
            return Some(SpecialOp::IAQ);
        }
        if c0 == 'h' as u8 && c1 == 'w' as u8 && c2 == 'n' as u8 {
            return Some(SpecialOp::HWN);
        }
        if c0 == 'h' as u8 && c1 == 'w' as u8 && c2 == 'q' as u8 {
            return Some(SpecialOp::HWQ);
        }
        if c0 == 'h' as u8 && c1 == 'w' as u8 && c2 == 'i' as u8 {
            return Some(SpecialOp::HWI);
        }
        proof {
            assert forall|op: SpecialOp| op.mnemonic() != seq![c0, c1, c2] by {
                if op.mnemonic() == seq![c0, c1, c2] {
                    assert(op.mnemonic()[0] == c0 && op.mnemonic()[1] == c1 && op.mnemonic()[2] == c2);
                }
            }
        }
        None
    }
}


impl std::str::FromStr for SpecialOp {
    type Err = ();

    /// Reads an operation from its lower-case mnemonic.
    fn from_str(s: &str) -> (r: Result<Self, Self::Err>)
        ensures
            r matches Ok(op) ==> op.mnemonic() == s.spec_bytes(),
            r is Err ==> forall|op: SpecialOp| op.mnemonic() != s.spec_bytes(),
    {
        let b = s.as_bytes();
        if b.len() != 3 {
            assert forall|op: SpecialOp| op.mnemonic() != s.spec_bytes() by {
                assert(op.mnemonic().len() == 3);
            }
            return Err(());
        }
        assert(b@ =~= seq![b@[0], b@[1], b@[2]]);
        match SpecialOp::from_mnemonic(b[0], b[1], b[2]) {
            Some(op) => Ok(op),
            None => Err(()),
        }
    }
}

} // verus!
