pub mod assembler;
pub mod errors;
pub mod fragment;
pub mod names;
pub mod preassembled_module;

pub use assembler::X64ReleaseAssembler;
pub use errors::{AssembleError, EmitError, PreassembleError, SetLabelError};
pub use fragment::{Fragment, FragmentIterator, FragmentKind, NO_NEXT};
pub use names::NameTable;
pub use preassembled_module::X64ReleasePreassembledModule;
