use vstd::prelude::*;

verus! {

/// The operand widths the instruction set knows.
#[derive(PartialEq, Eq, Structural, Hash, Clone, Copy, Debug)]
pub enum MachineSize {
    /// No width at all: the width of the instruction pointer and of the
    /// "no register" sentinel when they stand in an address.
    NoSize,
    Byte,
    Word,
    DWord,
    QWord,
    XMMWord,
    YMMWord,
}

impl MachineSize {
    /// The position of the width in the order of its declaration.
    pub open spec fn spec_as_u8(self) -> u8 {
        match self {
            MachineSize::NoSize => 0,
            MachineSize::Byte => 1,
            MachineSize::Word => 2,
            MachineSize::DWord => 3,
            MachineSize::QWord => 4,
            MachineSize::XMMWord => 5,
            MachineSize::YMMWord => 6,
        }
    }

    /// The width in bytes.
    pub open spec fn spec_as_bytes(self) -> u8 {
        match self {
            MachineSize::NoSize => 0,
            MachineSize::Byte => 1,
            MachineSize::Word => 2,
            MachineSize::DWord => 4,
            MachineSize::QWord => 8,
            MachineSize::XMMWord => 16,
            MachineSize::YMMWord => 32,
        }
    }

    /// The position of the width in the order of its declaration.
    #[must_use]
    #[verifier::when_used_as_spec(spec_as_u8)]
    pub fn as_u8(self) -> (code: u8)
        ensures
            code == self.as_u8(),
            code <= 6,
    {
        match self {
            MachineSize::NoSize => 0,
            MachineSize::Byte => 1,
            MachineSize::Word => 2,
            MachineSize::DWord => 3,
            MachineSize::QWord => 4,
            MachineSize::XMMWord => 5,
            MachineSize::YMMWord => 6,
        }
    }

    /// The width whose code is `val`.
    #[must_use]
    pub fn from_u8(val: u8) -> (size: Self)
        requires
            val <= 6,
        ensures
            size.as_u8() == val,
    {
        if val == 0 {
            MachineSize::NoSize
        } else if val == 1 {
            MachineSize::Byte
        } else if val == 2 {
            MachineSize::Word
        } else if val == 3 {
            MachineSize::DWord
        } else if val == 4 {
            MachineSize::QWord
        } else if val == 5 {
            MachineSize::XMMWord
        } else {
            MachineSize::YMMWord
        }
    }

    /// The width in bytes.
    #[must_use]
    #[verifier::when_used_as_spec(spec_as_bytes)]
    pub fn as_bytes(self) -> (bytes: u8)
        ensures
            bytes == self.as_bytes(),
    {
        match self {
            MachineSize::NoSize => 0,
            MachineSize::Byte => 1,
            MachineSize::Word => 2,
            MachineSize::DWord => 4,
            MachineSize::QWord => 8,
            MachineSize::XMMWord => 16,
            MachineSize::YMMWord => 32,
        }
    }
}

} // verus!
