use vstd::prelude::*;

verus! {

/// The conditions a conditional move or a conditional jump can test.
/// Several of them are two names for one test of the flags.
#[derive(PartialEq, Eq, Structural, Hash, Clone, Copy, Debug)]
pub enum Condition {
    /// In unsigned sense.
    Above,
    /// In unsigned sense.
    AboveOrEqual,
    /// In unsigned sense.
    Below,
    /// In unsigned sense.
    BelowOrEqual,
    Carry,
    NotCarry,
    Equal,
    NotEqual,
    /// In signed sense.
    Greater,
    /// In signed sense.
    GreaterOrEqual,
    /// In signed sense.
    Less,
    /// In signed sense.
    LessOrEqual,
    Overflow,
    NotOverflow,
    Parity,
    NotParity,
    Sign,
    NotSign,
    Zero,
    NotZero,
}

} // verus!
