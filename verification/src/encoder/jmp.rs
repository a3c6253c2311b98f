use crate::encoder::bytes::{byte_of_i8, bytes_of_i32, int32_bytes, int8_byte};
use crate::encoder::encoded_instruction::EncodedInstruction;
use vstd::prelude::*;

verus! {

/// The opcode of the jump with an 8-bit displacement.
pub const JMP_REL8_OPCODE: u8 = 0xEB;

/// The opcode of the jump with a 32-bit displacement.
pub const JMP_REL32_OPCODE: u8 = 0xE9;

/// The opcode of the call with a 32-bit displacement.
pub const CALL_REL32_OPCODE: u8 = 0xE8;

/// The bytes of `jmp rel8`: the opcode, then the displacement.
pub open spec fn jmp_rel8(rel: i8) -> Seq<u8> {
    seq![JMP_REL8_OPCODE, int8_byte(rel)]
}

/// The bytes of `jmp rel32`: the opcode, then the displacement, lowest byte
/// first.
pub open spec fn jmp_rel32(rel: i32) -> Seq<u8> {
    seq![JMP_REL32_OPCODE] + int32_bytes(rel)
}

/// The bytes of `call rel32`: the opcode, then the displacement, lowest byte
/// first.
pub open spec fn call_rel32(rel: i32) -> Seq<u8> {
    seq![CALL_REL32_OPCODE] + int32_bytes(rel)
}

/// Encodes `jmp rel8`, two bytes long.
///
/// The displacement is taken as it is written: it counts from the end of the
/// encoded instruction, and nothing is added to it here.
#[must_use]
pub fn encode_jmp_rel8(rel: i8) -> (encoded: EncodedInstruction)
    ensures
        encoded@ == jmp_rel8(rel),
        encoded@.len() == 2,
{
    let buffer = [JMP_REL8_OPCODE, byte_of_i8(rel)];
    proof {
        assert(buffer@ =~= jmp_rel8(rel));
    }
    EncodedInstruction::from_array_unchecked(buffer)
}

/// Encodes `jmp rel32`, five bytes long.
///
/// The displacement is taken as it is written: it counts from the end of the
/// encoded instruction, and nothing is added to it here.
#[must_use]
pub fn encode_jmp_rel32(rel: i32) -> (encoded: EncodedInstruction)
    ensures
        encoded@ == jmp_rel32(rel),
        encoded@.len() == 5,
{
    let disp = bytes_of_i32(rel);
    let buffer = [JMP_REL32_OPCODE, disp[0], disp[1], disp[2], disp[3]];
    proof {
        assert(buffer@ =~= jmp_rel32(rel));
    }
    EncodedInstruction::from_array_unchecked(buffer)
}

/// Encodes `call rel32`, five bytes long.
///
/// The displacement is taken as it is written: it counts from the end of the
/// encoded instruction, and nothing is added to it here.
#[must_use]
pub fn encode_call_rel32(rel: i32) -> (encoded: EncodedInstruction)
    ensures
        encoded@ == call_rel32(rel),
        encoded@.len() == 5,
{
    let disp = bytes_of_i32(rel);
    let buffer = [CALL_REL32_OPCODE, disp[0], disp[1], disp[2], disp[3]];
    proof {
        assert(buffer@ =~= call_rel32(rel));
    }
    EncodedInstruction::from_array_unchecked(buffer)
}

} // verus!
