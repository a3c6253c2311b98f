use crate::constants::{
    CALL_REL32_SIZE, JCC_REL32_SIZE, JCC_REL8_SIZE, JMP_REL32_SIZE, JMP_REL8_SIZE, LEA_RIP_SIZE,
};
use crate::encoder::bytes::{
    bytes_of_i32, fits_signed, int32_bytes, int32_of, int8_of, lemma_int32_kept, lemma_int8_kept,
};
use crate::encoder::encoded_instruction::EncodedInstruction;
use crate::encoder::errors::EncodingError;
use crate::encoder::jcc::{encode_jcc_rel32, encode_jcc_rel8, jcc_rel32, jcc_rel8};
use crate::encoder::jmp::{
    call_rel32, encode_call_rel32, encode_jmp_rel32, encode_jmp_rel8, jmp_rel32, jmp_rel8,
};
use crate::models::instruction::Instruction;
use crate::models::machine_size::MachineSize;
use crate::models::registers::GPR;
use vstd::prelude::*;

verus! {

/// The farthest, in either direction, that an instruction may point away
/// from its label. A session holds less than this many bytes, so the
/// distance from any instruction to any such target fits in 32 bits.
pub const MAX_LABEL_OFFSET: i32 = 0x4000_0000;

/// The opcode of `lea`.
pub const LEA_OPCODE: u8 = 0x8D;

/// Whether the instruction addresses a label, so that its bytes depend on
/// where the label and the instruction come to lie.
pub open spec fn is_relative(instr: Instruction) -> bool {
    instr.label() is Some
}

/// Whether a label-relative instruction has an encoding at all: its offset
/// from the label is at most [`MAX_LABEL_OFFSET`] either way, and a register
/// that is to receive an address is 64 bits wide.
pub open spec fn relative_valid(instr: Instruction) -> bool {
    &&& is_relative(instr)
    &&& -MAX_LABEL_OFFSET <= instr.label_offset() <= MAX_LABEL_OFFSET
    &&& instr matches Instruction::MOV_RL(reg, _, _) ==> reg.size() == MachineSize::QWord
}

/// Whether the instruction has, beside its encoding with a 32-bit
/// displacement, one with an 8-bit displacement.
pub open spec fn has_short_form(instr: Instruction) -> bool {
    instr is JUMP_L || instr is COND_JUMP_L
}

/// The length of the longest encoding of a label-relative instruction, the
/// one that reaches every target.
pub open spec fn wide_len(instr: Instruction) -> nat {
    match instr {
        Instruction::JUMP_L(_, _) => JMP_REL32_SIZE as nat,
        Instruction::COND_JUMP_L(_, _, _) => JCC_REL32_SIZE as nat,
        Instruction::CALL_L(_, _) => CALL_REL32_SIZE as nat,
        Instruction::MOV_RL(_, _, _) => LEA_RIP_SIZE as nat,
        _ => 0,
    }
}

/// The length of the shortest encoding of a label-relative instruction.
pub open spec fn short_len(instr: Instruction) -> nat {
    match instr {
        Instruction::JUMP_L(_, _) => JMP_REL8_SIZE as nat,
        Instruction::COND_JUMP_L(_, _, _) => JCC_REL8_SIZE as nat,
        _ => wide_len(instr),
    }
}

/// The length of the chosen encoding of a label-relative instruction.
pub open spec fn relative_len(instr: Instruction, short: bool) -> nat {
    if short {
        short_len(instr)
    } else {
        wide_len(instr)
    }
}

/// The bytes of `lea reg, [rip + rel]` for a 64-bit register.
pub open spec fn lea_rip(reg: GPR, rel: i32) -> Seq<u8> {
    seq![(0x48 + 4 * (reg.index() / 8)) as u8, LEA_OPCODE, (8 * (reg.index() % 8) + 5) as u8]
        + int32_bytes(rel)
}

/// The bytes of a label-relative instruction whose target lies `disp` bytes
/// behind its own end, in its short form where `short` is set and it has
/// one.
pub open spec fn relative_bytes(instr: Instruction, disp: int, short: bool) -> Seq<u8> {
    match instr {
        Instruction::JUMP_L(_, _) => if short {
            jmp_rel8(disp as i8)
        } else {
            jmp_rel32(disp as i32)
        },
        Instruction::COND_JUMP_L(cond, _, _) => if short {
            jcc_rel8(cond, disp as i8)
        } else {
            jcc_rel32(cond, disp as i32)
        },
        Instruction::CALL_L(_, _) => call_rel32(disp as i32),
        Instruction::MOV_RL(reg, _, _) => lea_rip(reg, disp as i32),
        _ => Seq::<u8>::empty(),
    }
}

/// Whatever the displacement, a label-relative instruction is as long as its
/// form says.
pub proof fn lemma_relative_bytes_len(instr: Instruction, disp: int, short: bool)
    ensures
        relative_bytes(instr, disp, short).len() == relative_len(instr, short),
{
}

/// The displacement that the encoding of a label-relative instruction
/// holds: what its last byte says, where it is in its short form, and else
/// what its last four bytes say.
pub open spec fn held_displacement(bytes: Seq<u8>, short: bool) -> int {
    if short {
        int8_of(bytes.last())
    } else {
        int32_of(bytes.subrange(bytes.len() - 4, bytes.len() as int))
    }
}

/// The encoding of a label-relative instruction holds the displacement it
/// was made for, provided the displacement fits in the form that was
/// chosen.
pub proof fn lemma_held_displacement(instr: Instruction, disp: int, short: bool)
    requires
        is_relative(instr),
        short ==> has_short_form(instr) && fits_signed(disp, 1),
        fits_signed(disp, 4),
    ensures
        held_displacement(relative_bytes(instr, disp, short), short) == disp,
{
    let bytes = relative_bytes(instr, disp, short);
    lemma_relative_bytes_len(instr, disp, short);
    if short {
        lemma_int8_kept(disp as i8);
    } else {
        lemma_int32_kept(disp as i32);
        assert(bytes.subrange(bytes.len() - 4, bytes.len() as int) =~= int32_bytes(disp as i32));
    }
}

/// Encodes `lea reg, [rip + rel]`, seven bytes long: the register receives
/// the address that lies `rel` bytes behind the end of the instruction.
///
/// # Errors
/// [`EncodingError::ArgumentOutOfRange`] if `reg` is not 64 bits wide.
pub fn encode_lea_rip(reg: GPR, rel: i32) -> (result: Result<EncodedInstruction, EncodingError>)
    ensures
        reg.size() == MachineSize::QWord <==> result is Ok,
        result matches Ok(encoded) ==> encoded@ == lea_rip(reg, rel) && encoded@.len() == 7,
        result matches Err(error) ==> error == EncodingError::ArgumentOutOfRange,
{
    match reg.size() {
        MachineSize::QWord => {
            let index = reg.index();
            let disp = bytes_of_i32(rel);
            let buffer = [
                0x48 + 4 * (index / 8),
                LEA_OPCODE,
                8 * (index % 8) + 5,
                disp[0],
                disp[1],
                disp[2],
                disp[3],
            ];
            proof {
                assert(buffer@ =~= lea_rip(reg, rel));
            }
            Ok(EncodedInstruction::from_array_unchecked(buffer))
        },
        _ => Err(EncodingError::ArgumentOutOfRange),
    }
}

/// The length of the longest encoding of a label-relative instruction, and
/// `None` for an instruction that addresses no label.
///
/// # Errors
/// [`EncodingError::ArgumentOutOfRange`] if the instruction addresses a
/// label and has no encoding: see [`relative_valid`].
pub fn reserve_relative(instr: &Instruction) -> (result: Result<Option<u8>, EncodingError>)
    ensures
        match result {
            Ok(Some(len)) => relative_valid(*instr) && len == wide_len(*instr) && 0 < len,
            Ok(None) => !is_relative(*instr),
            Err(error) => is_relative(*instr) && !relative_valid(*instr) && error
                == EncodingError::ArgumentOutOfRange,
        },
{
    if instr.label().is_none() {
        return Ok(None);
    }
    let offset = instr.label_offset();
    if offset < -MAX_LABEL_OFFSET || offset > MAX_LABEL_OFFSET {
        return Err(EncodingError::ArgumentOutOfRange);
    }
    match *instr {
        Instruction::JUMP_L(_, _) => Ok(Some(JMP_REL32_SIZE as u8)),
        Instruction::COND_JUMP_L(_, _, _) => Ok(Some(JCC_REL32_SIZE as u8)),
        Instruction::CALL_L(_, _) => Ok(Some(CALL_REL32_SIZE as u8)),
        Instruction::MOV_RL(reg, _, _) => match reg.size() {
            MachineSize::QWord => Ok(Some(LEA_RIP_SIZE as u8)),
            _ => Err(EncodingError::ArgumentOutOfRange),
        },
        _ => Ok(None),
    }
}

/// Whether the instruction has a short form beside its long one.
#[must_use]
pub fn can_shorten(instr: &Instruction) -> (short: bool)
    ensures
        short == has_short_form(*instr),
{
    match *instr {
        Instruction::JUMP_L(_, _) => true,
        Instruction::COND_JUMP_L(_, _, _) => true,
        _ => false,
    }
}

/// The length of the chosen encoding of a label-relative instruction.
#[must_use]
pub fn relative_size(instr: &Instruction, short: bool) -> (len: u8)
    ensures
        len == relative_len(*instr, short),
{
    match *instr {
        Instruction::JUMP_L(_, _) => if short {
            JMP_REL8_SIZE as u8
        } else {
            JMP_REL32_SIZE as u8
        },
        Instruction::COND_JUMP_L(_, _, _) => if short {
            JCC_REL8_SIZE as u8
        } else {
            JCC_REL32_SIZE as u8
        },
        Instruction::CALL_L(_, _) => CALL_REL32_SIZE as u8,
        Instruction::MOV_RL(_, _, _) => LEA_RIP_SIZE as u8,
        _ => 0,
    }
}

/// Encodes a label-relative instruction whose target lies `disp` bytes
/// behind its own end, in its short form where `short` is set.
#[must_use]
pub fn encode_relative(instr: &Instruction, disp: i32, short: bool) -> (encoded:
    EncodedInstruction)
    requires
        relative_valid(*instr),
        short ==> has_short_form(*instr) && fits_signed(disp as int, 1),
    ensures
        encoded@ == relative_bytes(*instr, disp as int, short),
        encoded@.len() == relative_len(*instr, short),
{
    proof {
        lemma_relative_bytes_len(*instr, disp as int, short);
    }
    match *instr {
        Instruction::JUMP_L(_, _) => if short {
            encode_jmp_rel8(disp as i8)
        } else {
            encode_jmp_rel32(disp)
        },
        Instruction::COND_JUMP_L(cond, _, _) => if short {
            encode_jcc_rel8(cond, disp as i8)
        } else {
            encode_jcc_rel32(cond, disp)
        },
        Instruction::CALL_L(_, _) => encode_call_rel32(disp),
        Instruction::MOV_RL(reg, _, _) => match encode_lea_rip(reg, disp) {
            Ok(encoded) => encoded,
            Err(_) => EncodedInstruction::empty(),
        },
        _ => EncodedInstruction::empty(),
    }
}

} // verus!
