pub mod assembler;
pub mod condition;
pub mod immediate;
pub mod instruction;
pub mod label;
pub mod machine_size;
pub mod program;
pub mod registers;
pub mod relaxation;
pub mod scale;

pub use assembler::{Assembler, PreassembledModule};
pub use condition::Condition;
pub use immediate::{Immediate, Immediate32, Immediate64};
pub use instruction::Instruction;
pub use label::Label;
pub use machine_size::MachineSize;
pub use program::{LabelPosition, Piece, Program, MAX_CONTENT_LENGTH};
pub use registers::{GPR, XMM, YMM};
pub use scale::Scale;
