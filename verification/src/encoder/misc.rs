use crate::encoder::encoded_instruction::EncodedInstruction;
use crate::encoder::errors::EncodingError;
use vstd::prelude::*;

verus! {

/// The opcode of the near return.
pub const RET_OPCODE: u8 = 0xC3;

/// The bytes of `ret`.
pub open spec fn ret() -> Seq<u8> {
    seq![RET_OPCODE]
}

/// The recommended no-op of `size` bytes, for `size` from 1 to 9; no bytes
/// for any other size.
pub open spec fn nop(size: u8) -> Seq<u8> {
    if size == 1 {
        seq![0x90u8]
    } else if size == 2 {
        seq![0x66u8, 0x90]
    } else if size == 3 {
        seq![0x0Fu8, 0x1F, 0x00]
    } else if size == 4 {
        seq![0x0Fu8, 0x1F, 0x40, 0x00]
    } else if size == 5 {
        seq![0x0Fu8, 0x1F, 0x44, 0x00, 0x00]
    } else if size == 6 {
        seq![0x66u8, 0x0F, 0x1F, 0x44, 0x00, 0x00]
    } else if size == 7 {
        seq![0x0Fu8, 0x1F, 0x80, 0x00, 0x00, 0x00, 0x00]
    } else if size == 8 {
        seq![0x0Fu8, 0x1F, 0x84, 0x00, 0x00, 0x00, 0x00, 0x00]
    } else if size == 9 {
        seq![0x66u8, 0x0F, 0x1F, 0x84, 0x00, 0x00, 0x00, 0x00, 0x00]
    } else {
        Seq::<u8>::empty()
    }
}

/// Encodes `ret`: always the one byte of its opcode.
#[must_use]
pub fn encode_ret() -> (encoded: EncodedInstruction)
    ensures
        encoded@ == ret(),
        encoded@.len() == 1,
{
    EncodedInstruction::from_array_unchecked([RET_OPCODE])
}

/// Encodes a no-op that is `size` bytes long, for `size` from 1 to 9.
///
/// # Errors
/// [`EncodingError::ArgumentOutOfRange`] if `size` is not inside `1..=9`.
pub fn encode_nop(size: u8) -> (result: Result<EncodedInstruction, EncodingError>)
    ensures
        (1 <= size <= 9) <==> result is Ok,
        result matches Ok(encoded) ==> encoded@ == nop(size) && encoded@.len() == size,
        result matches Err(error) ==> error == EncodingError::ArgumentOutOfRange,
{
    match size {
        1 => Ok(EncodedInstruction::from_array_unchecked([0x90])),
        2 => Ok(EncodedInstruction::from_array_unchecked([0x66, 0x90])),
        3 => Ok(EncodedInstruction::from_array_unchecked([0x0F, 0x1F, 0x00])),
        4 => Ok(EncodedInstruction::from_array_unchecked([0x0F, 0x1F, 0x40, 0x00])),
        5 => Ok(EncodedInstruction::from_array_unchecked([0x0F, 0x1F, 0x44, 0x00, 0x00])),
        6 => Ok(EncodedInstruction::from_array_unchecked([0x66, 0x0F, 0x1F, 0x44, 0x00, 0x00])),
        7 => Ok(
            EncodedInstruction::from_array_unchecked([0x0F, 0x1F, 0x80, 0x00, 0x00, 0x00, 0x00]),
        ),
        8 => Ok(
            EncodedInstruction::from_array_unchecked(
                [0x0F, 0x1F, 0x84, 0x00, 0x00, 0x00, 0x00, 0x00],
            ),
        ),
        9 => Ok(
            EncodedInstruction::from_array_unchecked(
                [0x66, 0x0F, 0x1F, 0x84, 0x00, 0x00, 0x00, 0x00, 0x00],
            ),
        ),
        _ => Err(EncodingError::ArgumentOutOfRange),
    }
}

} // verus!
