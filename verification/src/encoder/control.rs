use crate::encoder::encoded_instruction::{encodes, EncodedInstruction};
use crate::encoder::errors::EncodingError;
use crate::encoder::jcc::{condition_opcode, map_cond_to_opcode};
use crate::encoder::operands::rex;
use crate::models::condition::Condition;
use crate::models::machine_size::MachineSize;
use crate::models::registers::GPR;
use vstd::prelude::*;

verus! {

/// The opcode that the jump and the call through a register share; which
/// of the two it is stands in the register field.
pub const INDIRECT_OPCODE: u8 = 0xFF;

/// The bytes of a jump or call to the address in `reg`, `field` telling
/// the two apart.
pub open spec fn indirect(field: u8, reg: GPR) -> Seq<u8> {
    rex(false, false, false, reg.index() >= 8, false) + seq![
        INDIRECT_OPCODE,
        (0xC0 + 8 * field + reg.index() % 8) as u8,
    ]
}

/// The bytes of `jmp reg`, which only a register of 64 bits can take.
pub open spec fn jmp_r(reg: GPR) -> Result<Seq<u8>, EncodingError> {
    if reg.size() is QWord {
        Ok(indirect(4, reg))
    } else {
        Err(EncodingError::ArgumentOutOfRange)
    }
}

/// The bytes of `call reg`, which only a register of 64 bits can take.
pub open spec fn call_r(reg: GPR) -> Result<Seq<u8>, EncodingError> {
    if reg.size() is QWord {
        Ok(indirect(2, reg))
    } else {
        Err(EncodingError::ArgumentOutOfRange)
    }
}

/// The opcode of the short jump that is taken exactly when the one for
/// `cond` is not: the two differ in their lowest bit.
pub open spec fn negated_opcode(cond: Condition) -> u8 {
    if condition_opcode(cond) % 2 == 0 {
        (condition_opcode(cond) + 1) as u8
    } else {
        (condition_opcode(cond) - 1) as u8
    }
}

/// The bytes of a jump to the address in `reg` that is taken where `cond`
/// holds. The instruction set has no such instruction: a short jump on the
/// negated condition leads over a jump through the register.
pub open spec fn jcc_r(cond: Condition, reg: GPR) -> Result<Seq<u8>, EncodingError> {
    if reg.size() is QWord {
        Ok(seq![negated_opcode(cond), indirect(4, reg).len() as u8] + indirect(4, reg))
    } else {
        Err(EncodingError::ArgumentOutOfRange)
    }
}

/// Appends a jump or call to the address in `reg`.
fn push_indirect(encoded: &mut EncodedInstruction, field: u8, reg: GPR)
    requires
        field <= 7,
        old(encoded)@.len() <= 2,
    ensures
        final(encoded)@ == old(encoded)@ + indirect(field, reg),
        2 <= indirect(field, reg).len() <= 3,
{
    if reg.index() >= 8 {
        encoded.push(0x41);
    }
    encoded.push(INDIRECT_OPCODE);
    encoded.push(0xC0 + 8 * field + reg.index() % 8);
    proof {
        assert(encoded@ =~= old(encoded)@ + indirect(field, reg));
    }
}

/// Encodes `jmp reg`: the jump goes to the address that `reg` holds.
///
/// # Errors
/// [`EncodingError::ArgumentOutOfRange`] if `reg` is not 64 bits wide.
pub fn encode_jmp_r(reg: GPR) -> (result: Result<EncodedInstruction, EncodingError>)
    ensures
        encodes(result, jmp_r(reg)),
{
    match reg.size() {
        MachineSize::QWord => {
            let mut encoded = EncodedInstruction::empty();
            push_indirect(&mut encoded, 4, reg);
            proof {
                assert(encoded@ =~= indirect(4, reg));
            }
            Ok(encoded)
        },
        _ => Err(EncodingError::ArgumentOutOfRange),
    }
}

/// Encodes `call reg`: the call goes to the address that `reg` holds.
///
/// # Errors
/// [`EncodingError::ArgumentOutOfRange`] if `reg` is not 64 bits wide.
pub fn encode_call_r(reg: GPR) -> (result: Result<EncodedInstruction, EncodingError>)
    ensures
        encodes(result, call_r(reg)),
{
    match reg.size() {
        MachineSize::QWord => {
            let mut encoded = EncodedInstruction::empty();
            push_indirect(&mut encoded, 2, reg);
            proof {
                assert(encoded@ =~= indirect(2, reg));
            }
            Ok(encoded)
        },
        _ => Err(EncodingError::ArgumentOutOfRange),
    }
}

/// Encodes a jump to the address in `reg` that is taken where `cond`
/// holds.
///
/// # Errors
/// [`EncodingError::ArgumentOutOfRange`] if `reg` is not 64 bits wide.
pub fn encode_jcc_r(cond: Condition, reg: GPR) -> (result: Result<
    EncodedInstruction,
    EncodingError,
>)
    ensures
        encodes(result, jcc_r(cond, reg)),
{
    match reg.size() {
        MachineSize::QWord => {
            let opcode = map_cond_to_opcode(cond);
            let mut encoded = EncodedInstruction::empty();
            encoded.push(if opcode % 2 == 0 {
                opcode + 1
            } else {
                opcode - 1
            });
            encoded.push(if reg.index() >= 8 {
                3
            } else {
                2
            });
            let ghost head = encoded@;
            push_indirect(&mut encoded, 4, reg);
            proof {
                assert(head =~= seq![negated_opcode(cond), indirect(4, reg).len() as u8]);
            }
            Ok(encoded)
        },
        _ => Err(EncodingError::ArgumentOutOfRange),
    }
}

} // verus!
