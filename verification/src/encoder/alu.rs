use crate::encoder::encoded_instruction::{encodes, EncodedInstruction};
use crate::encoder::errors::EncodingError;
use crate::encoder::operands::{
    check_immediate, check_register_memory, check_register_pair, encode_modrm_form,
    immediate_bytes, immediate_fits, is_general_register, is_new_byte_register, modrm_form,
    needs_prefix_as_byte, opcode_for, push_immediate, register_memory_error,
    register_pair_error, sized_opcode, RegisterOrMemory,
};
use crate::models::immediate::Immediate32;
use crate::models::registers::GPR;
use crate::models::scale::Scale;
use vstd::prelude::*;

verus! {

/// The operations of arithmetic and logic that take two operands and share
/// one scheme of encoding.
#[derive(PartialEq, Eq, Structural, Hash, Clone, Copy, Debug)]
pub enum AluOperation {
    Add,
    Or,
    And,
    Sub,
    Xor,
    Cmp,
}

impl AluOperation {
    /// The number of the operation in the scheme: its opcodes start at eight
    /// times this number, and with an immediate it stands in the register
    /// field.
    pub open spec fn spec_digit(self) -> u8 {
        match self {
            AluOperation::Add => 0,
            AluOperation::Or => 1,
            AluOperation::And => 4,
            AluOperation::Sub => 5,
            AluOperation::Xor => 6,
            AluOperation::Cmp => 7,
        }
    }

    /// The number of the operation in the scheme.
    #[must_use]
    #[verifier::when_used_as_spec(spec_digit)]
    pub fn digit(self) -> (digit: u8)
        ensures
            digit == self.digit(),
            digit <= 7,
    {
        match self {
            AluOperation::Add => 0,
            AluOperation::Or => 1,
            AluOperation::And => 4,
            AluOperation::Sub => 5,
            AluOperation::Xor => 6,
            AluOperation::Cmp => 7,
        }
    }
}

/// The bytes of `op dst, src`.
pub open spec fn alu_rr(op: AluOperation, dst: GPR, src: GPR) -> Result<Seq<u8>, EncodingError> {
    match register_pair_error(dst, src) {
        Some(error) => Err(error),
        None => Ok(
            modrm_form(
                dst.size(),
                false,
                sized_opcode(dst.size(), (8 * op.digit() + 1) as u8),
                src.index(),
                is_new_byte_register(dst) || is_new_byte_register(src),
                RegisterOrMemory::Register(dst),
            ),
        ),
    }
}

/// The bytes of `op dst, [scale*base + offset]`.
pub open spec fn alu_rm(op: AluOperation, dst: GPR, base: GPR, scale: Scale, offset: i32) -> Result<
    Seq<u8>,
    EncodingError,
> {
    match register_memory_error(dst, base, scale) {
        Some(error) => Err(error),
        None => Ok(
            modrm_form(
                dst.size(),
                false,
                sized_opcode(dst.size(), (8 * op.digit() + 3) as u8),
                dst.index(),
                is_new_byte_register(dst),
                RegisterOrMemory::Memory(base, scale, offset),
            ),
        ),
    }
}

/// The bytes of `op [scale*base + offset], src`.
pub open spec fn alu_mr(op: AluOperation, base: GPR, scale: Scale, offset: i32, src: GPR) -> Result<
    Seq<u8>,
    EncodingError,
> {
    match register_memory_error(src, base, scale) {
        Some(error) => Err(error),
        None => Ok(
            modrm_form(
                src.size(),
                false,
                sized_opcode(src.size(), (8 * op.digit() + 1) as u8),
                src.index(),
                is_new_byte_register(src),
                RegisterOrMemory::Memory(base, scale, offset),
            ),
        ),
    }
}

/// The bytes of `op dst, imm`. The immediate is as wide as the register,
/// but for a register of 64 bits, which takes 32 bits and carries the sign
/// upward.
pub open spec fn alu_ri(op: AluOperation, dst: GPR, imm: Immediate32) -> Result<
    Seq<u8>,
    EncodingError,
> {
    if !dst.is_general() || !immediate_fits(dst.size(), imm.internal_value) {
        Err(EncodingError::ArgumentOutOfRange)
    } else {
        Ok(
            modrm_form(
                dst.size(),
                false,
                sized_opcode(dst.size(), 0x81),
                op.digit(),
                is_new_byte_register(dst),
                RegisterOrMemory::Register(dst),
            ) + immediate_bytes(dst.size(), imm.internal_value),
        )
    }
}

/// Encodes `op dst, src`.
///
/// # Errors
/// [`EncodingError::ArgumentOutOfRange`] if `dst` is no general register;
/// else [`EncodingError::RegistersSizeMismatch`] if `src` is not of the
/// same width.
pub fn encode_alu_rr(op: AluOperation, dst: GPR, src: GPR) -> (result: Result<
    EncodedInstruction,
    EncodingError,
>)
    ensures
        encodes(result, alu_rr(op, dst, src)),
{
    match check_register_pair(dst, src) {
        Some(error) => Err(error),
        None => Ok(
            encode_modrm_form(
                dst.size(),
                false,
                opcode_for(dst.size(), 8 * op.digit() + 1),
                src.index(),
                needs_prefix_as_byte(dst) || needs_prefix_as_byte(src),
                &RegisterOrMemory::Register(dst),
            ),
        ),
    }
}

/// Encodes `op dst, [scale*base + offset]`.
///
/// # Errors
/// [`EncodingError::ArgumentOutOfRange`] if `dst` is no general register or
/// the address cannot be encoded.
pub fn encode_alu_rm(op: AluOperation, dst: GPR, base: GPR, scale: Scale, offset: i32) -> (result:
    Result<EncodedInstruction, EncodingError>)
    ensures
        encodes(result, alu_rm(op, dst, base, scale, offset)),
{
    match check_register_memory(dst, base, scale) {
        Some(error) => Err(error),
        None => Ok(
            encode_modrm_form(
                dst.size(),
                false,
                opcode_for(dst.size(), 8 * op.digit() + 3),
                dst.index(),
                needs_prefix_as_byte(dst),
                &RegisterOrMemory::Memory(base, scale, offset),
            ),
        ),
    }
}

/// Encodes `op [scale*base + offset], src`.
///
/// # Errors
/// [`EncodingError::ArgumentOutOfRange`] if `src` is no general register or
/// the address cannot be encoded.
pub fn encode_alu_mr(op: AluOperation, base: GPR, scale: Scale, offset: i32, src: GPR) -> (result:
    Result<EncodedInstruction, EncodingError>)
    ensures
        encodes(result, alu_mr(op, base, scale, offset, src)),
{
    match check_register_memory(src, base, scale) {
        Some(error) => Err(error),
        None => Ok(
            encode_modrm_form(
                src.size(),
                false,
                opcode_for(src.size(), 8 * op.digit() + 1),
                src.index(),
                needs_prefix_as_byte(src),
                &RegisterOrMemory::Memory(base, scale, offset),
            ),
        ),
    }
}

/// Encodes `op dst, imm`.
///
/// # Errors
/// [`EncodingError::ArgumentOutOfRange`] if `dst` is no general register or
/// `imm` does not fit in its width.
pub fn encode_alu_ri(op: AluOperation, dst: GPR, imm: Immediate32) -> (result: Result<
    EncodedInstruction,
    EncodingError,
>)
    ensures
        encodes(result, alu_ri(op, dst, imm)),
{
    let size = dst.size();
    let value = imm.internal_value;
    if !is_general_register(dst) || !check_immediate(size, value) {
        return Err(EncodingError::ArgumentOutOfRange);
    }
    let mut encoded = encode_modrm_form(
        size,
        false,
        opcode_for(size, 0x81),
        op.digit(),
        needs_prefix_as_byte(dst),
        &RegisterOrMemory::Register(dst),
    );
    push_immediate(&mut encoded, size, value);
    Ok(encoded)
}

} // verus!
