use vstd::prelude::*;
use vstd::string::StringSliceAdditionalSpecFns;

verus! {

/// The eight general-purpose registers, in the order of their 3-bit encoding.
#[derive(Debug, Clone, Copy, PartialEq, Eq, Structural)]
pub enum Register {
    A,
    B,
    C,
    X,
    Y,
    Z,
    I,
    J,
}

impl Register {
    /// The 3-bit code of the register.
    pub open spec fn spec_code(self) -> u16 {
        match self {
            Register::A => 0,
            Register::B => 1,
            Register::C => 2,
            Register::X => 3,
            Register::Y => 4,
            Register::Z => 5,
            Register::I => 6,
            Register::J => 7,
        }
    }

    /// The register whose code is `val`, if `val` names one.
    pub open spec fn spec_new(val: u16) -> Option<Register> {
        if val == 0 {
            Some(Register::A)
        } else if val == 1 {
            Some(Register::B)
        } else if val == 2 {
            Some(Register::C)
        } else if val == 3 {
            Some(Register::X)
        } else if val == 4 {
            Some(Register::Y)
        } else if val == 5 {
            Some(Register::Z)
        } else if val == 6 {
            Some(Register::I)
        } else if val == 7 {
            Some(Register::J)
        } else {
            None
        }
    }

    pub fn new(val: u16) -> (r: Option<Register>)
        ensures
            r == Register::spec_new(val),
            r is Some <==> val < 8,
            r matches Some(reg) ==> reg.spec_code() == val,
    {
        match val {
            0x00 => Some(Register::A),
            0x01 => Some(Register::B),
            0x02 => Some(Register::C),
            0x03 => Some(Register::X),
            0x04 => Some(Register::Y),
            0x05 => Some(Register::Z),
            0x06 => Some(Register::I),
            0x07 => Some(Register::J),
            _ => None,
        }
    }

    pub fn code(&self) -> (r: u16)
        ensures
            r == self.spec_code(),
            r < 8,
    {
        match self {
            Register::A => 0x00,
            Register::B => 0x01,
            Register::C => 0x02,
            Register::X => 0x03,
            Register::Y => 0x04,
            Register::Z => 0x05,
            Register::I => 0x06,
            Register::J => 0x07,
        }
    }

    /// The register named by the lower-case letter `c`.
    pub open spec fn spec_from_letter(c: u8) -> Option<Register> {
        if c == 97 {
            Some(Register::A)
        } else if c == 98 {
            Some(Register::B)
        } else if c == 99 {
            Some(Register::C)
        } else if c == 120 {
            Some(Register::X)
        } else if c == 121 {
            Some(Register::Y)
        } else if c == 122 {
            Some(Register::Z)
        } else if c == 105 {
            Some(Register::I)
        } else if c == 106 {
            Some(Register::J)
        } else {
            None
        }
    }

    /// Reads a register from its lower-case letter (`a`, `b`, `c`, `x`, `y`, `z`, `i`, `j`).
    pub fn from_letter(c: u8) -> (r: Option<Register>)
        ensures
            r == Register::spec_from_letter(c),
    {
        match c {
            97 => Some(Register::A),
            98 => Some(Register::B),
            99 => Some(Register::C),
            120 => Some(Register::X),
            121 => Some(Register::Y),
            122 => Some(Register::Z),
            105 => Some(Register::I),
            106 => Some(Register::J),
            _ => None,
        }
    }
}

impl std::str::FromStr for Register {
    type Err = ();

    /// Reads a register from its lower-case letter.
    fn from_str(s: &str) -> (r: Result<Self, Self::Err>)
        ensures
            r matches Ok(x) ==> s.spec_bytes().len() == 1 && Register::spec_from_letter(
                s.spec_bytes()[0],
            ) == Some(x),
            r is Err ==> s.spec_bytes().len() != 1 || Register::spec_from_letter(
                s.spec_bytes()[0],
            ) is None,
    {
        let b = s.as_bytes();
        if b.len() != 1 {
            return Err(());
        }
        match Register::from_letter(b[0]) {
            Some(r) => Ok(r),
            None => Err(()),
        }
    }
}

} // verus!
