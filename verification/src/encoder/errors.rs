use vstd::prelude::*;

verus! {

/// Why an instruction has no encoding.
#[derive(PartialEq, Eq, Structural, Hash, Clone, Copy, Debug)]
pub enum EncodingError {
    /// An operand lies outside what the instruction form can take.
    ArgumentOutOfRange,
    /// The two registers of a register-to-register form differ in width.
    RegistersSizeMismatch,
}

} // verus!
