//! The sizes of the encodings of the jump instructions. A session needs them
//! before the jumps are encoded: a jump measures its distance from its own
//! end, so the size that is chosen for one jump moves the others.

use vstd::prelude::*;

verus! {

/// The length of `jmp rel8`.
pub const JMP_REL8_SIZE: usize = 2;

/// The length of `jmp rel32`.
pub const JMP_REL32_SIZE: usize = 5;

/// The length of `jcc rel8`.
pub const JCC_REL8_SIZE: usize = 2;

/// The length of `jcc rel32`.
pub const JCC_REL32_SIZE: usize = 6;

/// The length of `call rel32`.
pub const CALL_REL32_SIZE: usize = 5;

/// The length of `lea reg, [rip + rel32]`.
pub const LEA_RIP_SIZE: usize = 7;

/// The most bytes one instruction of the architecture can take.
pub const MAX_INSTRUCTION_SIZE: usize = 15;

} // verus!
