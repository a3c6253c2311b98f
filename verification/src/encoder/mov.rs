use crate::encoder::bytes::{bytes_of_i64, int64_bytes};
use crate::encoder::encoded_instruction::{encodes, EncodedInstruction};
use crate::encoder::errors::EncodingError;
use crate::encoder::jcc::{condition_opcode, map_cond_to_opcode};
use crate::encoder::operands::{
    check_immediate, check_register_memory, check_register_pair, encode_modrm_form,
    immediate_bytes, immediate_fits, is_general_register, is_new_byte_register, modrm_form,
    needs_prefix_as_byte, opcode_for, push_bytes, push_immediate, register_memory_error,
    register_pair_error, rex, size_prefix, sized_opcode, RegisterOrMemory,
};
use crate::models::condition::Condition;
use crate::models::immediate::{Immediate32, Immediate64};
use crate::models::machine_size::MachineSize;
use crate::models::registers::GPR;
use crate::models::scale::Scale;
use vstd::prelude::*;

verus! {

/// The bytes of `mov dst, src`.
pub open spec fn mov_rr(dst: GPR, src: GPR) -> Result<Seq<u8>, EncodingError> {
    match register_pair_error(dst, src) {
        Some(error) => Err(error),
        None => Ok(
            modrm_form(
                dst.size(),
                false,
                sized_opcode(dst.size(), 0x89),
                src.index(),
                is_new_byte_register(dst) || is_new_byte_register(src),
                RegisterOrMemory::Register(dst),
            ),
        ),
    }
}

/// The bytes of `mov dst, [scale*base + offset]`.
pub open spec fn mov_rm(dst: GPR, base: GPR, scale: Scale, offset: i32) -> Result<
    Seq<u8>,
    EncodingError,
> {
    match register_memory_error(dst, base, scale) {
        Some(error) => Err(error),
        None => Ok(
            modrm_form(
                dst.size(),
                false,
                sized_opcode(dst.size(), 0x8B),
                dst.index(),
                is_new_byte_register(dst),
                RegisterOrMemory::Memory(base, scale, offset),
            ),
        ),
    }
}

/// The bytes of `mov [scale*base + offset], src`.
pub open spec fn mov_mr(base: GPR, scale: Scale, offset: i32, src: GPR) -> Result<
    Seq<u8>,
    EncodingError,
> {
    match register_memory_error(src, base, scale) {
        Some(error) => Err(error),
        None => Ok(
            modrm_form(
                src.size(),
                false,
                sized_opcode(src.size(), 0x89),
                src.index(),
                is_new_byte_register(src),
                RegisterOrMemory::Memory(base, scale, offset),
            ),
        ),
    }
}

/// The bytes of `mov dst, imm`. A register of 8, 16 or 32 bits takes the
/// immediate in its own width, behind an opcode that names the register; a
/// register of 64 bits takes 32 bits and carries the sign upward.
pub open spec fn mov_ri(dst: GPR, imm: Immediate32) -> Result<Seq<u8>, EncodingError> {
    if !dst.is_general() || !immediate_fits(dst.size(), imm.internal_value) {
        Err(EncodingError::ArgumentOutOfRange)
    } else if dst.size() is QWord {
        Ok(
            modrm_form(dst.size(), false, 0xC7, 0, false, RegisterOrMemory::Register(dst))
                + immediate_bytes(dst.size(), imm.internal_value),
        )
    } else {
        Ok(
            size_prefix(dst.size()) + rex(
                false,
                false,
                false,
                dst.index() >= 8,
                is_new_byte_register(dst),
            ) + seq![
                ((if dst.size() is Byte {
                    0xB0int
                } else {
                    0xB8int
                }) + dst.index() % 8) as u8,
            ] + immediate_bytes(dst.size(), imm.internal_value),
        )
    }
}

/// The bytes of `mov dst, imm64`, which only a register of 64 bits can
/// take.
pub open spec fn mov_ri64(dst: GPR, imm: Immediate64) -> Result<Seq<u8>, EncodingError> {
    if dst.size() is QWord {
        Ok(
            rex(true, false, false, dst.index() >= 8, false) + seq![
                (0xB8 + dst.index() % 8) as u8,
            ] + int64_bytes(imm.internal_value),
        )
    } else {
        Err(EncodingError::ArgumentOutOfRange)
    }
}

/// The opcode, behind the escape byte, of the conditional move that tests
/// `cond`.
pub open spec fn cmov_opcode(cond: Condition) -> u8 {
    (condition_opcode(cond) - 0x30) as u8
}

/// The bytes of `cmovcc dst, src`. There is no conditional move of bytes.
pub open spec fn cmov_rr(cond: Condition, dst: GPR, src: GPR) -> Result<Seq<u8>, EncodingError> {
    match register_pair_error(dst, src) {
        Some(error) => Err(error),
        None => if dst.size() is Byte {
            Err(EncodingError::ArgumentOutOfRange)
        } else {
            Ok(
                modrm_form(
                    dst.size(),
                    true,
                    cmov_opcode(cond),
                    dst.index(),
                    false,
                    RegisterOrMemory::Register(src),
                ),
            )
        },
    }
}

/// The bytes of `cmovcc dst, [scale*base + offset]`. There is no
/// conditional move of bytes.
pub open spec fn cmov_rm(cond: Condition, dst: GPR, base: GPR, scale: Scale, offset: i32) -> Result<
    Seq<u8>,
    EncodingError,
> {
    match register_memory_error(dst, base, scale) {
        Some(error) => Err(error),
        None => if dst.size() is Byte {
            Err(EncodingError::ArgumentOutOfRange)
        } else {
            Ok(
                modrm_form(
                    dst.size(),
                    true,
                    cmov_opcode(cond),
                    dst.index(),
                    false,
                    RegisterOrMemory::Memory(base, scale, offset),
                ),
            )
        },
    }
}

/// Encodes `mov dst, src`.
///
/// # Errors
/// [`EncodingError::ArgumentOutOfRange`] if `dst` is no general register;
/// else [`EncodingError::RegistersSizeMismatch`] if `src` is not of the
/// same width.
pub fn encode_mov_rr(dst: GPR, src: GPR) -> (result: Result<EncodedInstruction, EncodingError>)
    ensures
        encodes(result, mov_rr(dst, src)),
{
    match check_register_pair(dst, src) {
        Some(error) => Err(error),
        None => Ok(
            encode_modrm_form(
                dst.size(),
                false,
                opcode_for(dst.size(), 0x89),
                src.index(),
                needs_prefix_as_byte(dst) || needs_prefix_as_byte(src),
                &RegisterOrMemory::Register(dst),
            ),
        ),
    }
}

/// Encodes `mov dst, [scale*base + offset]`.
///
/// # Errors
/// [`EncodingError::ArgumentOutOfRange`] if `dst` is no general register or
/// the address cannot be encoded.
pub fn encode_mov_rm(dst: GPR, base: GPR, scale: Scale, offset: i32) -> (result: Result<
    EncodedInstruction,
    EncodingError,
>)
    ensures
        encodes(result, mov_rm(dst, base, scale, offset)),
{
    match check_register_memory(dst, base, scale) {
        Some(error) => Err(error),
        None => Ok(
            encode_modrm_form(
                dst.size(),
                false,
                opcode_for(dst.size(), 0x8B),
                dst.index(),
                needs_prefix_as_byte(dst),
                &RegisterOrMemory::Memory(base, scale, offset),
            ),
        ),
    }
}

/// Encodes `mov [scale*base + offset], src`.
///
/// # Errors
/// [`EncodingError::ArgumentOutOfRange`] if `src` is no general register or
/// the address cannot be encoded.
pub fn encode_mov_mr(base: GPR, scale: Scale, offset: i32, src: GPR) -> (result: Result<
    EncodedInstruction,
    EncodingError,
>)
    ensures
        encodes(result, mov_mr(base, scale, offset, src)),
{
    match check_register_memory(src, base, scale) {
        Some(error) => Err(error),
        None => Ok(
            encode_modrm_form(
                src.size(),
                false,
                opcode_for(src.size(), 0x89),
                src.index(),
                needs_prefix_as_byte(src),
                &RegisterOrMemory::Memory(base, scale, offset),
            ),
        ),
    }
}

/// Encodes `mov dst, imm`.
///
/// # Errors
/// [`EncodingError::ArgumentOutOfRange`] if `dst` is no general register or
/// `imm` does not fit in its width.
pub fn encode_mov_ri(dst: GPR, imm: Immediate32) -> (result: Result<
    EncodedInstruction,
    EncodingError,
>)
    ensures
        encodes(result, mov_ri(dst, imm)),
{
    let size = dst.size();
    let value = imm.internal_value;
    if !is_general_register(dst) || !check_immediate(size, value) {
        return Err(EncodingError::ArgumentOutOfRange);
    }
    match size {
        MachineSize::QWord => {
            let mut encoded = encode_modrm_form(
                size,
                false,
                0xC7,
                0,
                false,
                &RegisterOrMemory::Register(dst),
            );
            push_immediate(&mut encoded, size, value);
            Ok(encoded)
        },
        _ => {
            let mut encoded = EncodedInstruction::empty();
            match size {
                MachineSize::Word => {
                    encoded.push(0x66);
                },
                _ => {},
            }
            if dst.index() >= 8 {
                encoded.push(0x41);
            } else if needs_prefix_as_byte(dst) {
                encoded.push(0x40);
            }
            let base: u8 = match size {
                MachineSize::Byte => 0xB0,
                _ => 0xB8,
            };
            encoded.push(base + dst.index() % 8);
            proof {
                assert(encoded@ =~= size_prefix(dst.size()) + rex(
                    false,
                    false,
                    false,
                    dst.index() >= 8,
                    is_new_byte_register(dst),
                ) + seq![
                    ((if dst.size() is Byte {
                        0xB0int
                    } else {
                        0xB8int
                    }) + dst.index() % 8) as u8,
                ]);
            }
            push_immediate(&mut encoded, size, value);
            Ok(encoded)
        },
    }
}

/// Encodes `mov dst, imm64`.
///
/// # Errors
/// [`EncodingError::ArgumentOutOfRange`] if `dst` is not 64 bits wide.
pub fn encode_mov_ri64(dst: GPR, imm: Immediate64) -> (result: Result<
    EncodedInstruction,
    EncodingError,
>)
    ensures
        encodes(result, mov_ri64(dst, imm)),
{
    match dst.size() {
        MachineSize::QWord => {
            let mut encoded = EncodedInstruction::empty();
            encoded.push(if dst.index() >= 8 {
                0x49
            } else {
                0x48
            });
            encoded.push(0xB8 + dst.index() % 8);
            let bytes = bytes_of_i64(imm.internal_value);
            push_bytes(&mut encoded, &bytes, 8);
            proof {
                assert(bytes@.subrange(0, 8) =~= bytes@);
                assert(encoded@ =~= rex(true, false, false, dst.index() >= 8, false) + seq![
                    (0xB8 + dst.index() % 8) as u8,
                ] + int64_bytes(imm.internal_value));
            }
            Ok(encoded)
        },
        _ => Err(EncodingError::ArgumentOutOfRange),
    }
}

/// Encodes `cmovcc dst, src`.
///
/// # Errors
/// [`EncodingError::ArgumentOutOfRange`] if `dst` is no general register;
/// else [`EncodingError::RegistersSizeMismatch`] if `src` is not of the
/// same width; else [`EncodingError::ArgumentOutOfRange`] if the registers
/// are 8 bits wide.
pub fn encode_cmov_rr(cond: Condition, dst: GPR, src: GPR) -> (result: Result<
    EncodedInstruction,
    EncodingError,
>)
    ensures
        encodes(result, cmov_rr(cond, dst, src)),
{
    match check_register_pair(dst, src) {
        Some(error) => Err(error),
        None => match dst.size() {
            MachineSize::Byte => Err(EncodingError::ArgumentOutOfRange),
            _ => Ok(
                encode_modrm_form(
                    dst.size(),
                    true,
                    map_cond_to_opcode(cond) - 0x30,
                    dst.index(),
                    false,
                    &RegisterOrMemory::Register(src),
                ),
            ),
        },
    }
}

/// Encodes `cmovcc dst, [scale*base + offset]`.
///
/// # Errors
/// [`EncodingError::ArgumentOutOfRange`] if `dst` is no general register,
/// the address cannot be encoded, or `dst` is 8 bits wide.
pub fn encode_cmov_rm(cond: Condition, dst: GPR, base: GPR, scale: Scale, offset: i32) -> (result:
    Result<EncodedInstruction, EncodingError>)
    ensures
        encodes(result, cmov_rm(cond, dst, base, scale, offset)),
{
    match check_register_memory(dst, base, scale) {
        Some(error) => Err(error),
        None => match dst.size() {
            MachineSize::Byte => Err(EncodingError::ArgumentOutOfRange),
            _ => Ok(
                encode_modrm_form(
                    dst.size(),
                    true,
                    map_cond_to_opcode(cond) - 0x30,
                    dst.index(),
                    false,
                    &RegisterOrMemory::Memory(base, scale, offset),
                ),
            ),
        },
    }
}

} // verus!
