use crate::models::condition::Condition;
use crate::models::immediate::{Immediate32, Immediate64};
use crate::models::label::Label;
use crate::models::registers::GPR;
use crate::models::scale::Scale;
use vstd::prelude::*;

verus! {

/// The instructions an assembly session accepts. Not every combination of
/// operands has an encoding: a form with two registers, for one, wants both
/// of the same width. Whether a value can be encoded is decided when it is
/// encoded.
///
/// The names follow the mnemonics of the instruction set. Their suffixes say
/// what the operands are, destination first:
///
///   * R = register
///   * M = memory, written `[scale*reg + offset]`
///   * I = immediate
///   * L = label
///   * I64 = 64-bit immediate
#[allow(non_camel_case_types)]
#[derive(PartialEq, Eq, Structural, Clone, Copy, Debug)]
pub enum Instruction {
    /// No instruction. It has no encoding.
    UNKNOWN,
    /// `MOV reg, reg`
    MOV_RR(GPR, GPR),
    /// `MOV reg, [scale*reg + offset]`
    MOV_RM(GPR, GPR, Scale, i32),
    /// `MOV [scale*reg + offset], reg`
    MOV_MR(GPR, Scale, i32, GPR),
    /// `MOV reg, imm32`, sign extended in case of 64-bit register
    MOV_RI(GPR, Immediate32),
    /// `MOV reg, imm64`
    MOV_RI64(GPR, Immediate64),
    /// `MOV reg, label + offset`: the register receives the address of the
    /// label, moved by the offset.
    MOV_RL(GPR, Label, i32),
    /// `CMOVcc reg, reg`
    COND_MOV_RR(Condition, GPR, GPR),
    /// `CMOVcc reg, [scale*reg + offset]`
    COND_MOV_RM(Condition, GPR, GPR, Scale, i32),
    /// `ADD reg, reg`
    ADD_RR(GPR, GPR),
    /// `ADD reg, [scale*reg + offset]`
    ADD_RM(GPR, GPR, Scale, i32),
    /// `ADD [scale*reg + offset], reg`
    ADD_MR(GPR, Scale, i32, GPR),
    /// `ADD reg, imm32`, sign extended in case of 64-bit register
    ADD_RI(GPR, Immediate32),
    /// `SUB reg, reg`
    SUB_RR(GPR, GPR),
    /// `SUB reg, [scale*reg + offset]`
    SUB_RM(GPR, GPR, Scale, i32),
    /// `SUB [scale*reg + offset], reg`
    SUB_MR(GPR, Scale, i32, GPR),
    /// `SUB reg, imm32`, sign extended in case of 64-bit register
    SUB_RI(GPR, Immediate32),
    /// `AND reg, reg`
    AND_RR(GPR, GPR),
    /// `AND reg, [scale*reg + offset]`
    AND_RM(GPR, GPR, Scale, i32),
    /// `AND [scale*reg + offset], reg`
    AND_MR(GPR, Scale, i32, GPR),
    /// `AND reg, imm32`, sign extended in case of 64-bit register
    AND_RI(GPR, Immediate32),
    /// `OR reg, reg`
    OR_RR(GPR, GPR),
    /// `OR reg, [scale*reg + offset]`
    OR_RM(GPR, GPR, Scale, i32),
    /// `OR [scale*reg + offset], reg`
    OR_MR(GPR, Scale, i32, GPR),
    /// `OR reg, imm32`, sign extended in case of 64-bit register
    OR_RI(GPR, Immediate32),
    /// `XOR reg, reg`
    XOR_RR(GPR, GPR),
    /// `XOR reg, [scale*reg + offset]`
    XOR_RM(GPR, GPR, Scale, i32),
    /// `XOR [scale*reg + offset], reg`
    XOR_MR(GPR, Scale, i32, GPR),
    /// `XOR reg, imm32`, sign extended in case of 64-bit register
    XOR_RI(GPR, Immediate32),
    /// `CMP reg, reg`
    CMP_RR(GPR, GPR),
    /// `CMP reg, [scale*reg + offset]`
    CMP_RM(GPR, GPR, Scale, i32),
    /// `CMP [scale*reg + offset], reg`
    CMP_MR(GPR, Scale, i32, GPR),
    /// `CMP reg, imm32`, sign extended in case of 64-bit register
    CMP_RI(GPR, Immediate32),
    /// `RET`
    RET,
    /// `JMP label + offset`
    JUMP_L(Label, i32),
    /// `JMP reg`: the jump goes to the address the register holds.
    JUMP_R(GPR),
    /// `Jcc label + offset`
    COND_JUMP_L(Condition, Label, i32),
    /// `Jcc reg`: where the condition holds, the jump goes to the address the
    /// register holds.
    COND_JUMP_R(Condition, GPR),
    /// `CALL label + offset`
    CALL_L(Label, i32),
    /// `CALL reg`: the call goes to the address the register holds.
    CALL_R(GPR),
}

impl Instruction {
    /// The label the instruction refers to, where it refers to one.
    pub open spec fn spec_label(&self) -> Option<Label> {
        match *self {
            Instruction::MOV_RL(_, label, _) => Some(label),
            Instruction::JUMP_L(label, _) => Some(label),
            Instruction::COND_JUMP_L(_, label, _) => Some(label),
            Instruction::CALL_L(label, _) => Some(label),
            _ => None,
        }
    }

    /// The number of bytes by which the instruction moves away from its
    /// label; zero where it refers to none.
    pub open spec fn spec_label_offset(&self) -> i32 {
        match *self {
            Instruction::MOV_RL(_, _, offset) => offset,
            Instruction::JUMP_L(_, offset) => offset,
            Instruction::COND_JUMP_L(_, _, offset) => offset,
            Instruction::CALL_L(_, offset) => offset,
            _ => 0,
        }
    }

    /// The label the instruction refers to, where it refers to one.
    #[must_use]
    #[verifier::when_used_as_spec(spec_label)]
    pub fn label(&self) -> (label: Option<Label>)
        ensures
            label == self.label(),
    {
        match *self {
            Instruction::MOV_RL(_, label, _) => Some(label),
            Instruction::JUMP_L(label, _) => Some(label),
            Instruction::COND_JUMP_L(_, label, _) => Some(label),
            Instruction::CALL_L(label, _) => Some(label),
            _ => None,
        }
    }

    /// The number of bytes by which the instruction moves away from its
    /// label; zero where it refers to none.
    #[must_use]
    #[verifier::when_used_as_spec(spec_label_offset)]
    pub fn label_offset(&self) -> (offset: i32)
        ensures
            offset == self.label_offset(),
    {
        match *self {
            Instruction::MOV_RL(_, _, offset) => offset,
            Instruction::JUMP_L(_, offset) => offset,
            Instruction::COND_JUMP_L(_, _, offset) => offset,
            Instruction::CALL_L(_, offset) => offset,
            _ => 0,
        }
    }
}

} // verus!
