use crate::encoder::errors::EncodingError;
use crate::models::label::Label;
use vstd::prelude::*;
use vstd::std_specs::convert::FromSpecImpl;

verus! {

/// The error of the standard library's input and output, which a sink
/// hands back when it refuses a write. Nothing is known of its contents.
#[verifier::external_type_specification]
#[verifier::external_body]
pub struct ExIoError(std::io::Error);

/// Why nothing was added to a session.
#[derive(PartialEq, Eq, Structural, Clone, Copy, Debug)]
pub enum EmitError {
    /// The session cannot hold what was to be added.
    OutOfMemory,
    /// The instruction has no encoding.
    Encoding(EncodingError),
}

/// Why a label was not bound.
#[derive(PartialEq, Eq, Structural, Clone, Copy, Debug)]
pub enum SetLabelError {
    /// The label was bound before.
    LabelAlreadyExists,
}

/// Why a session could not be turned into a module.
#[derive(PartialEq, Eq, Structural, Clone, Copy, Debug)]
pub enum PreassembleError {
    /// The label has a name, or an instruction addresses it, and it was
    /// never bound.
    LabelNotSet(Label),
}

/// Why a module could not be written out.
#[derive(Debug)]
pub enum AssembleError {
    /// A label was found without a place. A module never holds one.
    LabelNotSet(Label),
    /// The sink refused the bytes.
    IO(std::io::Error),
}

impl From<std::io::Error> for AssembleError {
    fn from(value: std::io::Error) -> (ret: Self) {
        Self::IO(value)
    }
}

impl FromSpecImpl<std::io::Error> for AssembleError {
    open spec fn obeys_from_spec() -> bool {
        true
    }

    open spec fn from_spec(v: std::io::Error) -> Self {
        AssembleError::IO(v)
    }
}

} // verus!
