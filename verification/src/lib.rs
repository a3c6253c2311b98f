//! A just-in-time assembler for x86-64: operand and instruction values, a
//! pure instruction encoder, and an assembly session that lays out code with
//! labels and picks the smallest encoding of every label-relative branch.

pub mod arrays;
pub mod assemblers;
pub mod constants;
pub mod encoder;
pub mod models;

pub use assemblers::release::{
    AssembleError, EmitError, Fragment, FragmentIterator, FragmentKind, PreassembleError,
    SetLabelError, X64ReleaseAssembler, X64ReleasePreassembledModule,
};
pub use encoder::{EncodedInstruction, EncodingError};
pub use models::{
    Assembler, Condition, Immediate, Immediate32, Immediate64, Instruction, Label, LabelPosition,
    MachineSize, PreassembledModule, Scale, GPR, XMM, YMM,
};
