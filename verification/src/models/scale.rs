use vstd::prelude::*;

verus! {

/// The factor by which an index register is multiplied in an address.
#[derive(PartialEq, Eq, Structural, Hash, Clone, Copy, Debug)]
pub enum Scale {
    Scale1,
    Scale2,
    Scale4,
    Scale8,
}

impl Scale {
    /// The two bits that stand for the scale in an address byte.
    pub open spec fn spec_as_u8(self) -> u8 {
        match self {
            Scale::Scale1 => 0,
            Scale::Scale2 => 1,
            Scale::Scale4 => 2,
            Scale::Scale8 => 3,
        }
    }

    /// The number the index is multiplied by.
    pub open spec fn spec_factor(self) -> u8 {
        match self {
            Scale::Scale1 => 1,
            Scale::Scale2 => 2,
            Scale::Scale4 => 4,
            Scale::Scale8 => 8,
        }
    }

    /// The two bits that stand for the scale in an address byte.
    #[must_use]
    #[verifier::when_used_as_spec(spec_as_u8)]
    pub fn as_u8(self) -> (code: u8)
        ensures
            code == self.as_u8(),
            code <= 3,
    {
        match self {
            Scale::Scale1 => 0,
            Scale::Scale2 => 1,
            Scale::Scale4 => 2,
            Scale::Scale8 => 3,
        }
    }

    /// The number the index is multiplied by.
    #[must_use]
    #[verifier::when_used_as_spec(spec_factor)]
    pub fn factor(self) -> (factor: u8)
        ensures
            factor == self.factor(),
    {
        match self {
            Scale::Scale1 => 1,
            Scale::Scale2 => 2,
            Scale::Scale4 => 4,
            Scale::Scale8 => 8,
        }
    }
}

} // verus!
