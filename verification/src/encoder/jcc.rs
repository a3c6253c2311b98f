use crate::encoder::bytes::{byte_of_i8, bytes_of_i32, int32_bytes, int8_byte};
use crate::encoder::encoded_instruction::EncodedInstruction;
use crate::models::condition::Condition;
use vstd::prelude::*;

verus! {

/// The opcode of the conditional jump with an 8-bit displacement that tests
/// `cond`. Conditions that are two names for one test of the flags share
/// their opcode: "carry" and "below", "zero" and "equal", and their
/// negations.
pub open spec fn condition_opcode(cond: Condition) -> u8 {
    match cond {
        Condition::Above => 0x77,
        Condition::AboveOrEqual => 0x73,
        Condition::Below => 0x72,
        Condition::BelowOrEqual => 0x76,
        Condition::Carry => 0x72,
        Condition::NotCarry => 0x73,
        Condition::Equal => 0x74,
        Condition::NotEqual => 0x75,
        Condition::Greater => 0x7F,
        Condition::GreaterOrEqual => 0x7D,
        Condition::Less => 0x7C,
        Condition::LessOrEqual => 0x7E,
        Condition::Overflow => 0x70,
        Condition::NotOverflow => 0x71,
        Condition::Parity => 0x7A,
        Condition::NotParity => 0x7B,
        Condition::Sign => 0x78,
        Condition::NotSign => 0x79,
        Condition::Zero => 0x74,
        Condition::NotZero => 0x75,
    }
}

/// The byte that opens every two-byte opcode.
pub const OPCODE_ESCAPE: u8 = 0x0F;

/// The bytes of `jcc rel8`: the opcode of the condition, then the
/// displacement.
pub open spec fn jcc_rel8(cond: Condition, rel: i8) -> Seq<u8> {
    seq![condition_opcode(cond), int8_byte(rel)]
}

/// The bytes of `jcc rel32`: the escape byte, the opcode of the condition
/// raised by 0x10, then the displacement, lowest byte first.
pub open spec fn jcc_rel32(cond: Condition, rel: i32) -> Seq<u8> {
    seq![OPCODE_ESCAPE, (condition_opcode(cond) + 0x10) as u8] + int32_bytes(rel)
}

/// The opcode of the conditional jump with an 8-bit displacement that
/// tests `cond`.
#[must_use]
pub fn map_cond_to_opcode(cond: Condition) -> (opcode: u8)
    ensures
        opcode == condition_opcode(cond),
        0x70 <= opcode <= 0x7F,
{
    match cond {
        Condition::Above => 0x77,
        Condition::AboveOrEqual => 0x73,
        Condition::Below => 0x72,
        Condition::BelowOrEqual => 0x76,
        Condition::Carry => 0x72,
        Condition::NotCarry => 0x73,
        Condition::Equal => 0x74,
        Condition::NotEqual => 0x75,
        Condition::Greater => 0x7F,
        Condition::GreaterOrEqual => 0x7D,
        Condition::Less => 0x7C,
        Condition::LessOrEqual => 0x7E,
        Condition::Overflow => 0x70,
        Condition::NotOverflow => 0x71,
        Condition::Parity => 0x7A,
        Condition::NotParity => 0x7B,
        Condition::Sign => 0x78,
        Condition::NotSign => 0x79,
        Condition::Zero => 0x74,
        Condition::NotZero => 0x75,
    }
}

/// Encodes `jcc rel8`, two bytes long.
///
/// The displacement is taken as it is written: it counts from the end of the
/// encoded instruction, and nothing is added to it here.
#[must_use]
pub fn encode_jcc_rel8(cond: Condition, rel: i8) -> (encoded: EncodedInstruction)
    ensures
        encoded@ == jcc_rel8(cond, rel),
        encoded@.len() == 2,
{
    let buffer = [map_cond_to_opcode(cond), byte_of_i8(rel)];
    proof {
        assert(buffer@ =~= jcc_rel8(cond, rel));
    }
    EncodedInstruction::from_array_unchecked(buffer)
}

/// Encodes `jcc rel32`, six bytes long.
///
/// The displacement is taken as it is written: it counts from the end of the
/// encoded instruction, and nothing is added to it here.
#[must_use]
pub fn encode_jcc_rel32(cond: Condition, rel: i32) -> (encoded: EncodedInstruction)
    ensures
        encoded@ == jcc_rel32(cond, rel),
        encoded@.len() == 6,
{
    // The long form differs from the short one in two ways: the escape byte
    // stands in front, and the opcode is that of the short form plus 0x10.
    let opcode = map_cond_to_opcode(cond) + 0x10;
    let disp = bytes_of_i32(rel);
    let buffer = [OPCODE_ESCAPE, opcode, disp[0], disp[1], disp[2], disp[3]];
    proof {
        assert(buffer@ =~= jcc_rel32(cond, rel));
    }
    EncodedInstruction::from_array_unchecked(buffer)
}

} // verus!
