use crate::encoder::bytes::{bytes_of_i32, fits_signed, int32_bytes};
use crate::encoder::encoded_instruction::EncodedInstruction;
use crate::encoder::errors::EncodingError;
use crate::encoder::jcc::OPCODE_ESCAPE;
use crate::models::machine_size::MachineSize;
use crate::models::registers::GPR;
use crate::models::scale::Scale;
use vstd::prelude::*;

verus! {

/// The prefix that turns a 32-bit operation into a 16-bit one.
pub const OPERAND_SIZE_PREFIX: u8 = 0x66;

/// The second operand of an instruction with two operands: a register, or
/// the memory at `scale*reg + offset`.
#[derive(PartialEq, Eq, Structural, Clone, Copy, Debug)]
pub enum RegisterOrMemory {
    Register(GPR),
    Memory(GPR, Scale, i32),
}

/// Whether the register is one of the four byte registers that can be
/// named only with an extension prefix in front of the opcode.
pub open spec fn is_new_byte_register(reg: GPR) -> bool {
    reg.size() is Byte && 4 <= reg.index() <= 7
}

/// Whether the operand can be encoded. A register has to be a general one.
/// An address has to be made of a 64-bit register, of the instruction
/// pointer with the scale 1, or of no register at all; and the stack
/// pointer cannot be scaled.
pub open spec fn rm_valid(rm: RegisterOrMemory) -> bool {
    match rm {
        RegisterOrMemory::Register(reg) => reg.is_general(),
        RegisterOrMemory::Memory(reg, scale, _) => {
            ||| reg == GPR::NO_REG
            ||| reg == GPR::RIP && scale == Scale::Scale1
            ||| reg.size() is QWord && (scale == Scale::Scale1 || reg != GPR::RSP)
        },
    }
}

/// Whether the operand asks the extension prefix to extend the index of its
/// address.
pub open spec fn rm_extends_index(rm: RegisterOrMemory) -> bool {
    rm matches RegisterOrMemory::Memory(reg, scale, _) && reg.is_general() && scale
        != Scale::Scale1 && reg.index() >= 8
}

/// Whether the operand asks the extension prefix to extend its register, or
/// the base of its address.
pub open spec fn rm_extends_base(rm: RegisterOrMemory) -> bool {
    match rm {
        RegisterOrMemory::Register(reg) => reg.index() >= 8,
        RegisterOrMemory::Memory(reg, scale, _) => reg.is_general() && scale == Scale::Scale1
            && reg.index() >= 8,
    }
}

/// How the offset of an address with a base register is written: 0 for not
/// at all, 1 for in one byte, 2 for in four. A base whose low bits are 5
/// always has its offset written.
pub open spec fn offset_mode(low: u8, offset: i32) -> u8 {
    if offset == 0 && low != 5 {
        0
    } else if fits_signed(offset as int, 1) {
        1
    } else {
        2
    }
}

/// The bytes of an offset written in the given mode.
pub open spec fn offset_bytes(mode: u8, offset: i32) -> Seq<u8> {
    if mode == 0 {
        Seq::<u8>::empty()
    } else if mode == 1 {
        int32_bytes(offset).subrange(0, 1)
    } else {
        int32_bytes(offset)
    }
}

/// The bytes that name the operands of an instruction: the addressing byte,
/// whose middle field is `field`, then, where the operand is in memory, the
/// scale byte and the offset as far as they are needed.
pub open spec fn rm_bytes(field: u8, rm: RegisterOrMemory) -> Seq<u8> {
    match rm {
        RegisterOrMemory::Register(reg) => seq![(0xC0 + 8 * field + reg.index() % 8) as u8],
        RegisterOrMemory::Memory(reg, scale, offset) => {
            if reg == GPR::NO_REG {
                seq![(8 * field + 4) as u8, 0x25u8] + int32_bytes(offset)
            } else if reg == GPR::RIP {
                seq![(8 * field + 5) as u8] + int32_bytes(offset)
            } else if scale == Scale::Scale1 {
                let low = reg.index() % 8;
                let mode = offset_mode(low, offset);
                seq![(64 * mode + 8 * field + low) as u8] + (if low == 4 {
                    seq![0x24u8]
                } else {
                    Seq::<u8>::empty()
                }) + offset_bytes(mode, offset)
            } else {
                seq![(8 * field + 4) as u8, (64 * scale.as_u8() + 8 * (reg.index() % 8) + 5) as u8]
                    + int32_bytes(offset)
            }
        },
    }
}

/// The operand size prefix, where the operation is 16 bits wide.
pub open spec fn size_prefix(size: MachineSize) -> Seq<u8> {
    if size is Word {
        seq![OPERAND_SIZE_PREFIX]
    } else {
        Seq::<u8>::empty()
    }
}

/// The extension prefix, where any of its bits is set or `force` asks for
/// it: `w` makes the operation 64 bits wide, `r`, `x` and `b` extend the
/// register field, the index and the base.
pub open spec fn rex(w: bool, r: bool, x: bool, b: bool, force: bool) -> Seq<u8> {
    if w || r || x || b || force {
        seq![
            (0x40 + (if w {
                8int
            } else {
                0
            }) + (if r {
                4int
            } else {
                0
            }) + (if x {
                2int
            } else {
                0
            }) + (if b {
                1int
            } else {
                0
            })) as u8,
        ]
    } else {
        Seq::<u8>::empty()
    }
}

/// The opcode, behind the escape byte where `escape` is set.
pub open spec fn opcode_bytes(escape: bool, opcode: u8) -> Seq<u8> {
    if escape {
        seq![OPCODE_ESCAPE, opcode]
    } else {
        seq![opcode]
    }
}

/// The bytes of an instruction of the common form: prefixes, opcode, and
/// the bytes that name its operands. `field` is the number of the register
/// operand, or, where the instruction has none, what the opcode wants in
/// its place.
pub open spec fn modrm_form(
    size: MachineSize,
    escape: bool,
    opcode: u8,
    field: u8,
    force: bool,
    rm: RegisterOrMemory,
) -> Seq<u8> {
    size_prefix(size) + rex(
        size is QWord,
        field >= 8,
        rm_extends_index(rm),
        rm_extends_base(rm),
        force,
    ) + opcode_bytes(escape, opcode) + rm_bytes(field % 8, rm)
}

/// An instruction of the common form is at most ten bytes long.
pub proof fn lemma_modrm_form_len(
    size: MachineSize,
    escape: bool,
    opcode: u8,
    field: u8,
    force: bool,
    rm: RegisterOrMemory,
)
    ensures
        2 <= modrm_form(size, escape, opcode, field, force, rm).len() <= 10,
{
}

/// Appends to `encoded` the bytes that name the operands.
fn push_rm(encoded: &mut EncodedInstruction, field: u8, rm: &RegisterOrMemory)
    requires
        field <= 7,
        rm_valid(*rm),
        old(encoded)@.len() <= 4,
    ensures
        final(encoded)@ == old(encoded)@ + rm_bytes(field, *rm),
        final(encoded)@.len() <= old(encoded)@.len() + 6,
{
    match *rm {
        RegisterOrMemory::Register(reg) => {
            encoded.push(0xC0 + 8 * field + reg.index() % 8);
            proof {
                assert(encoded@ =~= old(encoded)@ + rm_bytes(field, *rm));
            }
        },
        RegisterOrMemory::Memory(reg, scale, offset) => {
            let disp = bytes_of_i32(offset);
            match reg {
                GPR::NO_REG => {
                    encoded.push(8 * field + 4);
                    encoded.push(0x25);
                    push_bytes(encoded, &disp, 4);
                    proof {
                        assert(disp@.subrange(0, 4) =~= disp@);
                        assert(encoded@ =~= old(encoded)@ + rm_bytes(field, *rm));
                    }
                },
                GPR::RIP => {
                    encoded.push(8 * field + 5);
                    push_bytes(encoded, &disp, 4);
                    proof {
                        assert(disp@.subrange(0, 4) =~= disp@);
                        assert(encoded@ =~= old(encoded)@ + rm_bytes(field, *rm));
                    }
                },
                _ => {
                    let low = reg.index() % 8;
                    match scale {
                        Scale::Scale1 => {
                            let mode: u8 = if offset == 0 && low != 5 {
                                0
                            } else if -128 <= offset && offset <= 127 {
                                1
                            } else {
                                2
                            };
                            encoded.push(64 * mode + 8 * field + low);
                            if low == 4 {
                                encoded.push(0x24);
                            }
                            if mode == 1 {
                                push_bytes(encoded, &disp, 1);
                            } else if mode == 2 {
                                push_bytes(encoded, &disp, 4);
                            }
                            proof {
                                assert(disp@.subrange(0, 4) =~= disp@);
                                assert(encoded@ =~= old(encoded)@ + rm_bytes(field, *rm));
                            }
                        },
                        _ => {
                            encoded.push(8 * field + 4);
                            encoded.push(64 * scale.as_u8() + 8 * low + 5);
                            push_bytes(encoded, &disp, 4);
                            proof {
                                assert(disp@.subrange(0, 4) =~= disp@);
                                assert(encoded@ =~= old(encoded)@ + rm_bytes(field, *rm));
                            }
                        },
                    }
                },
            }
        },
    }
}

/// Appends the first `count` bytes of `bytes` to `encoded`.
pub fn push_bytes(encoded: &mut EncodedInstruction, bytes: &[u8], count: usize)
    requires
        count <= bytes@.len(),
        old(encoded)@.len() + count <= 15,
    ensures
        final(encoded)@ == old(encoded)@ + bytes@.subrange(0, count as int),
{
    let mut idx: usize = 0;
    while idx < count
        invariant
            idx <= count <= bytes@.len(),
            old(encoded)@.len() + count <= 15,
            encoded@ == old(encoded)@ + bytes@.subrange(0, idx as int),
        decreases count - idx,
    {
        encoded.push(bytes[idx]);
        proof {
            assert(bytes@.subrange(0, idx + 1) =~= bytes@.subrange(0, idx as int).push(
                bytes@[idx as int],
            ));
            assert(encoded@ =~= old(encoded)@ + bytes@.subrange(0, idx + 1));
        }
        idx += 1;
    }
    proof {
        assert(bytes@.subrange(0, 0) =~= Seq::<u8>::empty());
    }
}

/// Appends the extension prefix, where it is needed.
fn push_rex(encoded: &mut EncodedInstruction, w: bool, r: bool, x: bool, b: bool, force: bool)
    requires
        old(encoded)@.len() <= 1,
    ensures
        final(encoded)@ == old(encoded)@ + rex(w, r, x, b, force),
        final(encoded)@.len() <= old(encoded)@.len() + 1,
{
    if w || r || x || b || force {
        let mut prefix: u8 = 0x40;
        if w {
            prefix = prefix + 8;
        }
        if r {
            prefix = prefix + 4;
        }
        if x {
            prefix = prefix + 2;
        }
        if b {
            prefix = prefix + 1;
        }
        encoded.push(prefix);
        proof {
            assert(encoded@ =~= old(encoded)@ + rex(w, r, x, b, force));
        }
    } else {
        proof {
            assert(encoded@ =~= old(encoded)@ + rex(w, r, x, b, force));
        }
    }
}

/// Encodes an instruction of the common form.
#[must_use]
pub fn encode_modrm_form(
    size: MachineSize,
    escape: bool,
    opcode: u8,
    field: u8,
    force: bool,
    rm: &RegisterOrMemory,
) -> (encoded: EncodedInstruction)
    requires
        field <= 15,
        rm_valid(*rm),
    ensures
        encoded@ == modrm_form(size, escape, opcode, field, force, *rm),
        encoded@.len() <= 10,
{
    let mut encoded = EncodedInstruction::empty();
    match size {
        MachineSize::Word => {
            encoded.push(OPERAND_SIZE_PREFIX);
        },
        _ => {},
    }
    proof {
        assert(encoded@ =~= size_prefix(size));
    }
    let w = match size {
        MachineSize::QWord => true,
        _ => false,
    };
    let r = field >= 8;
    let (x, b) = match *rm {
        RegisterOrMemory::Register(reg) => (false, reg.index() >= 8),
        RegisterOrMemory::Memory(reg, scale, _) => match reg {
            GPR::NO_REG => (false, false),
            GPR::RIP => (false, false),
            _ => match scale {
                Scale::Scale1 => (false, reg.index() >= 8),
                _ => (reg.index() >= 8, false),
            },
        },
    };
    proof {
        assert(w == (size is QWord));
        assert(x == rm_extends_index(*rm));
        assert(b == rm_extends_base(*rm));
    }
    push_rex(&mut encoded, w, r, x, b, force);
    let ghost head = encoded@;
    if escape {
        encoded.push(OPCODE_ESCAPE);
    }
    encoded.push(opcode);
    proof {
        assert(encoded@ =~= head + opcode_bytes(escape, opcode));
    }
    push_rm(&mut encoded, field % 8, rm);
    encoded
}

/// Whether `value` can stand as the immediate of an operation of the width
/// `size`: it has to fit in that width, read as signed or as unsigned.
/// Operations of 64 bits take 32 bits and carry the sign upward.
pub open spec fn immediate_fits(size: MachineSize, value: i32) -> bool {
    match size {
        MachineSize::Byte => -0x80 <= value <= 0xff,
        MachineSize::Word => -0x8000 <= value <= 0xffff,
        _ => true,
    }
}

/// The number of bytes that the immediate of an operation of the width
/// `size` takes.
pub open spec fn immediate_len(size: MachineSize) -> nat {
    match size {
        MachineSize::Byte => 1,
        MachineSize::Word => 2,
        _ => 4,
    }
}

/// The bytes of the immediate of an operation of the width `size`: as
/// many of the low bytes of `value` as the width takes.
pub open spec fn immediate_bytes(size: MachineSize, value: i32) -> Seq<u8> {
    int32_bytes(value).subrange(0, immediate_len(size) as int)
}

/// What stands in the way of two registers being the operands of one
/// operation, if anything does: the first has to be a general register, and
/// the second of the same width.
pub open spec fn register_pair_error(first: GPR, second: GPR) -> Option<EncodingError> {
    if !first.is_general() {
        Some(EncodingError::ArgumentOutOfRange)
    } else if second.size() != first.size() {
        Some(EncodingError::RegistersSizeMismatch)
    } else {
        None
    }
}

/// What stands in the way of a register and an address being the operands
/// of one operation, if anything does.
pub open spec fn register_memory_error(reg: GPR, base: GPR, scale: Scale) -> Option<
    EncodingError,
> {
    if !reg.is_general() || !rm_valid(RegisterOrMemory::Memory(base, scale, 0)) {
        Some(EncodingError::ArgumentOutOfRange)
    } else {
        None
    }
}

/// The opcode `wide`, or, for an operation on bytes, `wide - 1`.
pub open spec fn sized_opcode(size: MachineSize, wide: u8) -> u8 {
    if size is Byte {
        (wide - 1) as u8
    } else {
        wide
    }
}

/// Whether the register is one of the four byte registers that need the
/// extension prefix.
#[must_use]
pub fn needs_prefix_as_byte(reg: GPR) -> (needed: bool)
    ensures
        needed == is_new_byte_register(reg),
{
    match reg.size() {
        MachineSize::Byte => 4 <= reg.index() && reg.index() <= 7,
        _ => false,
    }
}

/// Whether the register is a general one.
#[must_use]
pub fn is_general_register(reg: GPR) -> (general: bool)
    ensures
        general == reg.is_general(),
{
    match reg.size() {
        MachineSize::NoSize => false,
        _ => true,
    }
}

/// Whether the two widths are the same.
#[must_use]
pub fn same_size(first: MachineSize, second: MachineSize) -> (same: bool)
    ensures
        same == (first == second),
{
    first.as_u8() == second.as_u8()
}

/// What stands in the way of two registers being the operands of one
/// operation.
#[must_use]
pub fn check_register_pair(first: GPR, second: GPR) -> (error: Option<EncodingError>)
    ensures
        error == register_pair_error(first, second),
{
    if !is_general_register(first) {
        Some(EncodingError::ArgumentOutOfRange)
    } else if !same_size(second.size(), first.size()) {
        Some(EncodingError::RegistersSizeMismatch)
    } else {
        None
    }
}

/// What stands in the way of a register and an address being the operands
/// of one operation.
#[must_use]
pub fn check_register_memory(reg: GPR, base: GPR, scale: Scale) -> (error: Option<EncodingError>)
    ensures
        error == register_memory_error(reg, base, scale),
{
    let address_ok = match base {
        GPR::NO_REG => true,
        GPR::RIP => match scale {
            Scale::Scale1 => true,
            _ => false,
        },
        _ => match base.size() {
            MachineSize::QWord => match scale {
                Scale::Scale1 => true,
                _ => match base {
                    GPR::RSP => false,
                    _ => true,
                },
            },
            _ => false,
        },
    };
    if !is_general_register(reg) || !address_ok {
        Some(EncodingError::ArgumentOutOfRange)
    } else {
        None
    }
}

/// The opcode `wide`, or, for an operation on bytes, `wide - 1`.
#[must_use]
pub fn opcode_for(size: MachineSize, wide: u8) -> (opcode: u8)
    requires
        wide >= 1,
    ensures
        opcode == sized_opcode(size, wide),
{
    match size {
        MachineSize::Byte => wide - 1,
        _ => wide,
    }
}

/// Appends the immediate of an operation of the width `size`.
pub fn push_immediate(encoded: &mut EncodedInstruction, size: MachineSize, value: i32)
    requires
        old(encoded)@.len() <= 11,
    ensures
        final(encoded)@ == old(encoded)@ + immediate_bytes(size, value),
        final(encoded)@.len() == old(encoded)@.len() + immediate_len(size),
{
    let bytes = bytes_of_i32(value);
    let count: usize = match size {
        MachineSize::Byte => 1,
        MachineSize::Word => 2,
        _ => 4,
    };
    push_bytes(encoded, &bytes, count);
}

/// Whether `value` can stand as the immediate of an operation of the width
/// `size`.
#[must_use]
pub fn check_immediate(size: MachineSize, value: i32) -> (fits: bool)
    ensures
        fits == immediate_fits(size, value),
{
    match size {
        MachineSize::Byte => -0x80 <= value && value <= 0xff,
        MachineSize::Word => -0x8000 <= value && value <= 0xffff,
        _ => true,
    }
}

} // verus!
