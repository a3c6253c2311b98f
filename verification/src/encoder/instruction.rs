use crate::encoder::alu::{
    alu_mr, alu_ri, alu_rm, alu_rr, encode_alu_mr, encode_alu_ri, encode_alu_rm, encode_alu_rr,
    AluOperation,
};
use crate::encoder::control::{
    call_r, encode_call_r, encode_jcc_r, encode_jmp_r, jcc_r, jmp_r,
};
use crate::encoder::encoded_instruction::{encodes, EncodedInstruction};
use crate::encoder::errors::EncodingError;
use crate::encoder::misc::{encode_ret, ret};
use crate::encoder::mov::{
    cmov_rm, cmov_rr, encode_cmov_rm, encode_cmov_rr, encode_mov_mr, encode_mov_ri,
    encode_mov_ri64, encode_mov_rm, encode_mov_rr, mov_mr, mov_ri, mov_ri64, mov_rm, mov_rr,
};
use crate::encoder::operands::{
    lemma_modrm_form_len, modrm_form, RegisterOrMemory,
};
use crate::models::condition::Condition;
use crate::models::immediate::Immediate32;
use crate::models::instruction::Instruction;
use crate::models::machine_size::MachineSize;
use crate::models::registers::GPR;
use crate::models::scale::Scale;
use vstd::prelude::*;

verus! {

/// The bytes of an instruction that addresses no label, or the reason why
/// it has none. An instruction that addresses a label has no bytes before
/// the label has its place: it is out of range here.
pub open spec fn encoding(instr: Instruction) -> Result<Seq<u8>, EncodingError> {
    match instr {
        Instruction::MOV_RR(dst, src) => mov_rr(dst, src),
        Instruction::MOV_RM(dst, base, scale, offset) => mov_rm(dst, base, scale, offset),
        Instruction::MOV_MR(base, scale, offset, src) => mov_mr(base, scale, offset, src),
        Instruction::MOV_RI(dst, imm) => mov_ri(dst, imm),
        Instruction::MOV_RI64(dst, imm) => mov_ri64(dst, imm),
        Instruction::COND_MOV_RR(cond, dst, src) => cmov_rr(cond, dst, src),
        Instruction::COND_MOV_RM(cond, dst, base, scale, offset) => cmov_rm(
            cond,
            dst,
            base,
            scale,
            offset,
        ),
        Instruction::ADD_RR(dst, src) => alu_rr(AluOperation::Add, dst, src),
        Instruction::ADD_RM(dst, base, scale, offset) => alu_rm(
            AluOperation::Add,
            dst,
            base,
            scale,
            offset,
        ),
        Instruction::ADD_MR(base, scale, offset, src) => alu_mr(
            AluOperation::Add,
            base,
            scale,
            offset,
            src,
        ),
        Instruction::ADD_RI(dst, imm) => alu_ri(AluOperation::Add, dst, imm),
        Instruction::SUB_RR(dst, src) => alu_rr(AluOperation::Sub, dst, src),
        Instruction::SUB_RM(dst, base, scale, offset) => alu_rm(
            AluOperation::Sub,
            dst,
            base,
            scale,
            offset,
        ),
        Instruction::SUB_MR(base, scale, offset, src) => alu_mr(
            AluOperation::Sub,
            base,
            scale,
            offset,
            src,
        ),
        Instruction::SUB_RI(dst, imm) => alu_ri(AluOperation::Sub, dst, imm),
        Instruction::AND_RR(dst, src) => alu_rr(AluOperation::And, dst, src),
        Instruction::AND_RM(dst, base, scale, offset) => alu_rm(
            AluOperation::And,
            dst,
            base,
            scale,
            offset,
        ),
        Instruction::AND_MR(base, scale, offset, src) => alu_mr(
            AluOperation::And,
            base,
            scale,
            offset,
            src,
        ),
        Instruction::AND_RI(dst, imm) => alu_ri(AluOperation::And, dst, imm),
        Instruction::OR_RR(dst, src) => alu_rr(AluOperation::Or, dst, src),
        Instruction::OR_RM(dst, base, scale, offset) => alu_rm(
            AluOperation::Or,
            dst,
            base,
            scale,
            offset,
        ),
        Instruction::OR_MR(base, scale, offset, src) => alu_mr(
            AluOperation::Or,
            base,
            scale,
            offset,
            src,
        ),
        Instruction::OR_RI(dst, imm) => alu_ri(AluOperation::Or, dst, imm),
        Instruction::XOR_RR(dst, src) => alu_rr(AluOperation::Xor, dst, src),
        Instruction::XOR_RM(dst, base, scale, offset) => alu_rm(
            AluOperation::Xor,
            dst,
            base,
            scale,
            offset,
        ),
        Instruction::XOR_MR(base, scale, offset, src) => alu_mr(
            AluOperation::Xor,
            base,
            scale,
            offset,
            src,
        ),
        Instruction::XOR_RI(dst, imm) => alu_ri(AluOperation::Xor, dst, imm),
        Instruction::CMP_RR(dst, src) => alu_rr(AluOperation::Cmp, dst, src),
        Instruction::CMP_RM(dst, base, scale, offset) => alu_rm(
            AluOperation::Cmp,
            dst,
            base,
            scale,
            offset,
        ),
        Instruction::CMP_MR(base, scale, offset, src) => alu_mr(
            AluOperation::Cmp,
            base,
            scale,
            offset,
            src,
        ),
        Instruction::CMP_RI(dst, imm) => alu_ri(AluOperation::Cmp, dst, imm),
        Instruction::RET => Ok(ret()),
        Instruction::JUMP_R(reg) => jmp_r(reg),
        Instruction::COND_JUMP_R(cond, reg) => jcc_r(cond, reg),
        Instruction::CALL_R(reg) => call_r(reg),
        Instruction::UNKNOWN
        | Instruction::MOV_RL(_, _, _)
        | Instruction::JUMP_L(_, _)
        | Instruction::COND_JUMP_L(_, _, _)
        | Instruction::CALL_L(_, _) => Err(EncodingError::ArgumentOutOfRange),
    }
}

/// Every encoding is at least one byte and at most fifteen bytes long.
pub proof fn lemma_encoding_len(instr: Instruction)
    ensures
        encoding(instr) matches Ok(bytes) ==> 1 <= bytes.len() <= 15,
{
    match instr {
        Instruction::MOV_RR(dst, src) => lemma_mov_len(dst, src, Scale::Scale1, 0),
        Instruction::MOV_RM(dst, base, scale, offset) => lemma_mov_len(dst, base, scale, offset),
        Instruction::MOV_MR(base, scale, offset, src) => lemma_mov_len(src, base, scale, offset),
        Instruction::MOV_RI(dst, imm) => lemma_mov_immediate_len(dst, imm),
        Instruction::COND_MOV_RR(cond, dst, src) => lemma_cmov_len(
            cond,
            dst,
            src,
            Scale::Scale1,
            0,
        ),
        Instruction::COND_MOV_RM(cond, dst, base, scale, offset) => lemma_cmov_len(
            cond,
            dst,
            base,
            scale,
            offset,
        ),
        Instruction::ADD_RR(dst, src) => lemma_alu_len(
            AluOperation::Add,
            dst,
            src,
            Scale::Scale1,
            0,
        ),
        Instruction::SUB_RR(dst, src) => lemma_alu_len(
            AluOperation::Sub,
            dst,
            src,
            Scale::Scale1,
            0,
        ),
        Instruction::AND_RR(dst, src) => lemma_alu_len(
            AluOperation::And,
            dst,
            src,
            Scale::Scale1,
            0,
        ),
        Instruction::OR_RR(dst, src) => lemma_alu_len(
            AluOperation::Or,
            dst,
            src,
            Scale::Scale1,
            0,
        ),
        Instruction::XOR_RR(dst, src) => lemma_alu_len(
            AluOperation::Xor,
            dst,
            src,
            Scale::Scale1,
            0,
        ),
        Instruction::CMP_RR(dst, src) => lemma_alu_len(
            AluOperation::Cmp,
            dst,
            src,
            Scale::Scale1,
            0,
        ),
        Instruction::ADD_RM(reg, base, scale, offset)
        | Instruction::ADD_MR(base, scale, offset, reg) => lemma_alu_len(
            AluOperation::Add,
            reg,
            base,
            scale,
            offset,
        ),
        Instruction::SUB_RM(reg, base, scale, offset)
        | Instruction::SUB_MR(base, scale, offset, reg) => lemma_alu_len(
            AluOperation::Sub,
            reg,
            base,
            scale,
            offset,
        ),
        Instruction::AND_RM(reg, base, scale, offset)
        | Instruction::AND_MR(base, scale, offset, reg) => lemma_alu_len(
            AluOperation::And,
            reg,
            base,
            scale,
            offset,
        ),
        Instruction::OR_RM(reg, base, scale, offset)
        | Instruction::OR_MR(base, scale, offset, reg) => lemma_alu_len(
            AluOperation::Or,
            reg,
            base,
            scale,
            offset,
        ),
        Instruction::XOR_RM(reg, base, scale, offset)
        | Instruction::XOR_MR(base, scale, offset, reg) => lemma_alu_len(
            AluOperation::Xor,
            reg,
            base,
            scale,
            offset,
        ),
        Instruction::CMP_RM(reg, base, scale, offset)
        | Instruction::CMP_MR(base, scale, offset, reg) => lemma_alu_len(
            AluOperation::Cmp,
            reg,
            base,
            scale,
            offset,
        ),
        Instruction::ADD_RI(dst, imm) => lemma_alu_immediate_len(AluOperation::Add, dst, imm),
        Instruction::SUB_RI(dst, imm) => lemma_alu_immediate_len(AluOperation::Sub, dst, imm),
        Instruction::AND_RI(dst, imm) => lemma_alu_immediate_len(AluOperation::And, dst, imm),
        Instruction::OR_RI(dst, imm) => lemma_alu_immediate_len(AluOperation::Or, dst, imm),
        Instruction::XOR_RI(dst, imm) => lemma_alu_immediate_len(AluOperation::Xor, dst, imm),
        Instruction::CMP_RI(dst, imm) => lemma_alu_immediate_len(AluOperation::Cmp, dst, imm),
        _ => {},
    }
}

/// A move between a register and a register or an address is at most ten
/// bytes long.
proof fn lemma_mov_len(reg: GPR, other: GPR, scale: Scale, offset: i32)
    ensures
        mov_rr(reg, other) matches Ok(bytes) ==> 1 <= bytes.len() <= 15,
        mov_rm(reg, other, scale, offset) matches Ok(bytes) ==> 1 <= bytes.len() <= 15,
        mov_mr(other, scale, offset, reg) matches Ok(bytes) ==> 1 <= bytes.len() <= 15,
{
    lemma_sized_forms_len(reg.size(), RegisterOrMemory::Register(reg));
    lemma_sized_forms_len(reg.size(), RegisterOrMemory::Memory(other, scale, offset));
}

/// A move of an immediate is at most seven bytes long.
proof fn lemma_mov_immediate_len(dst: GPR, imm: Immediate32)
    ensures
        mov_ri(dst, imm) matches Ok(bytes) ==> 1 <= bytes.len() <= 15,
{
    lemma_sized_forms_len(dst.size(), RegisterOrMemory::Register(dst));
}

/// A conditional move is at most eleven bytes long.
proof fn lemma_cmov_len(cond: Condition, dst: GPR, other: GPR, scale: Scale, offset: i32)
    ensures
        cmov_rr(cond, dst, other) matches Ok(bytes) ==> 1 <= bytes.len() <= 15,
        cmov_rm(cond, dst, other, scale, offset) matches Ok(bytes) ==> 1 <= bytes.len() <= 15,
{
    lemma_sized_forms_len(dst.size(), RegisterOrMemory::Register(other));
    lemma_sized_forms_len(dst.size(), RegisterOrMemory::Memory(other, scale, offset));
}

/// An operation on a register and a register or an address is at most ten
/// bytes long.
proof fn lemma_alu_len(op: AluOperation, reg: GPR, other: GPR, scale: Scale, offset: i32)
    ensures
        alu_rr(op, reg, other) matches Ok(bytes) ==> 1 <= bytes.len() <= 15,
        alu_rm(op, reg, other, scale, offset) matches Ok(bytes) ==> 1 <= bytes.len() <= 15,
        alu_mr(op, other, scale, offset, reg) matches Ok(bytes) ==> 1 <= bytes.len() <= 15,
{
    lemma_sized_forms_len(reg.size(), RegisterOrMemory::Register(reg));
    lemma_sized_forms_len(reg.size(), RegisterOrMemory::Memory(other, scale, offset));
}

/// An operation on a register and an immediate is at most fourteen bytes
/// long.
proof fn lemma_alu_immediate_len(op: AluOperation, dst: GPR, imm: Immediate32)
    ensures
        alu_ri(op, dst, imm) matches Ok(bytes) ==> 1 <= bytes.len() <= 15,
{
    lemma_sized_forms_len(dst.size(), RegisterOrMemory::Register(dst));
}

/// Whatever the opcode and the register field, an instruction of the common
/// form is at most ten bytes long.
proof fn lemma_sized_forms_len(size: MachineSize, rm: RegisterOrMemory)
    ensures
        forall|escape: bool, opcode: u8, field: u8, force: bool|
            2 <= (#[trigger] modrm_form(size, escape, opcode, field, force, rm)).len() <= 10,
{
    assert forall|escape: bool, opcode: u8, field: u8, force: bool|
        2 <= (#[trigger] modrm_form(size, escape, opcode, field, force, rm)).len() <= 10 by {
        lemma_modrm_form_len(size, escape, opcode, field, force, rm);
    }
}

/// Encodes an instruction that addresses no label.
///
/// # Errors
/// What the encoder of the instruction's form gives, and
/// [`EncodingError::ArgumentOutOfRange`] for an instruction that addresses
/// a label or is none.
pub fn encode(instr: &Instruction) -> (result: Result<EncodedInstruction, EncodingError>)
    ensures
        encodes(result, encoding(*instr)),
{
    match *instr {
        Instruction::MOV_RR(dst, src) => encode_mov_rr(dst, src),
        Instruction::MOV_RM(dst, base, scale, offset) => encode_mov_rm(dst, base, scale, offset),
        Instruction::MOV_MR(base, scale, offset, src) => encode_mov_mr(base, scale, offset, src),
        Instruction::MOV_RI(dst, imm) => encode_mov_ri(dst, imm),
        Instruction::MOV_RI64(dst, imm) => encode_mov_ri64(dst, imm),
        Instruction::COND_MOV_RR(cond, dst, src) => encode_cmov_rr(cond, dst, src),
        Instruction::COND_MOV_RM(cond, dst, base, scale, offset) => encode_cmov_rm(
            cond,
            dst,
            base,
            scale,
            offset,
        ),
        Instruction::ADD_RR(dst, src) => encode_alu_rr(AluOperation::Add, dst, src),
        Instruction::ADD_RM(dst, base, scale, offset) => encode_alu_rm(
            AluOperation::Add,
            dst,
            base,
            scale,
            offset,
        ),
        Instruction::ADD_MR(base, scale, offset, src) => encode_alu_mr(
            AluOperation::Add,
            base,
            scale,
            offset,
            src,
        ),
        Instruction::ADD_RI(dst, imm) => encode_alu_ri(AluOperation::Add, dst, imm),
        Instruction::SUB_RR(dst, src) => encode_alu_rr(AluOperation::Sub, dst, src),
        Instruction::SUB_RM(dst, base, scale, offset) => encode_alu_rm(
            AluOperation::Sub,
            dst,
            base,
            scale,
            offset,
        ),
        Instruction::SUB_MR(base, scale, offset, src) => encode_alu_mr(
            AluOperation::Sub,
            base,
            scale,
            offset,
            src,
        ),
        Instruction::SUB_RI(dst, imm) => encode_alu_ri(AluOperation::Sub, dst, imm),
        Instruction::AND_RR(dst, src) => encode_alu_rr(AluOperation::And, dst, src),
        Instruction::AND_RM(dst, base, scale, offset) => encode_alu_rm(
            AluOperation::And,
            dst,
            base,
            scale,
            offset,
        ),
        Instruction::AND_MR(base, scale, offset, src) => encode_alu_mr(
            AluOperation::And,
            base,
            scale,
            offset,
            src,
        ),
        Instruction::AND_RI(dst, imm) => encode_alu_ri(AluOperation::And, dst, imm),
        Instruction::OR_RR(dst, src) => encode_alu_rr(AluOperation::Or, dst, src),
        Instruction::OR_RM(dst, base, scale, offset) => encode_alu_rm(
            AluOperation::Or,
            dst,
            base,
            scale,
            offset,
        ),
        Instruction::OR_MR(base, scale, offset, src) => encode_alu_mr(
            AluOperation::Or,
            base,
            scale,
            offset,
            src,
        ),
        Instruction::OR_RI(dst, imm) => encode_alu_ri(AluOperation::Or, dst, imm),
        Instruction::XOR_RR(dst, src) => encode_alu_rr(AluOperation::Xor, dst, src),
        Instruction::XOR_RM(dst, base, scale, offset) => encode_alu_rm(
            AluOperation::Xor,
            dst,
            base,
            scale,
            offset,
        ),
        Instruction::XOR_MR(base, scale, offset, src) => encode_alu_mr(
            AluOperation::Xor,
            base,
            scale,
            offset,
            src,
        ),
        Instruction::XOR_RI(dst, imm) => encode_alu_ri(AluOperation::Xor, dst, imm),
        Instruction::CMP_RR(dst, src) => encode_alu_rr(AluOperation::Cmp, dst, src),
        Instruction::CMP_RM(dst, base, scale, offset) => encode_alu_rm(
            AluOperation::Cmp,
            dst,
            base,
            scale,
            offset,
        ),
        Instruction::CMP_MR(base, scale, offset, src) => encode_alu_mr(
            AluOperation::Cmp,
            base,
            scale,
            offset,
            src,
        ),
        Instruction::CMP_RI(dst, imm) => encode_alu_ri(AluOperation::Cmp, dst, imm),
        Instruction::RET => Ok(encode_ret()),
        Instruction::JUMP_R(reg) => encode_jmp_r(reg),
        Instruction::COND_JUMP_R(cond, reg) => encode_jcc_r(cond, reg),
        Instruction::CALL_R(reg) => encode_call_r(reg),
        Instruction::UNKNOWN
        | Instruction::MOV_RL(_, _, _)
        | Instruction::JUMP_L(_, _)
        | Instruction::COND_JUMP_L(_, _, _)
        | Instruction::CALL_L(_, _) => Err(EncodingError::ArgumentOutOfRange),
    }
}

} // verus!
