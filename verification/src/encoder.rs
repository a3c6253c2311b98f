pub mod alu;
pub mod bytes;
pub mod control;
pub mod encoded_instruction;
pub mod errors;
pub mod instruction;
pub mod jcc;
pub mod jmp;
pub mod misc;
pub mod mov;
pub mod operands;
pub mod relative;

pub use encoded_instruction::EncodedInstruction;
pub use errors::EncodingError;
