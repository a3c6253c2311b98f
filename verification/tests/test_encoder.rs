use osom_x64::encoder::alu::{encode_alu_ri, encode_alu_rr, AluOperation};
use osom_x64::encoder::bytes::{byte_of_i8, bytes_of_i32, bytes_of_i64};
use osom_x64::encoder::control::{encode_call_r, encode_jcc_r, encode_jmp_r};
use osom_x64::encoder::instruction::encode;
use osom_x64::encoder::jcc::{encode_jcc_rel32, encode_jcc_rel8, map_cond_to_opcode};
use osom_x64::encoder::jmp::{encode_call_rel32, encode_jmp_rel32, encode_jmp_rel8};
use osom_x64::encoder::misc::encode_nop;
use osom_x64::encoder::mov::{encode_mov_ri, encode_mov_rr};
use osom_x64::encoder::relative::{encode_lea_rip, encode_relative, reserve_relative};
use osom_x64::{
    Condition, EncodedInstruction, EncodingError, Immediate32, Immediate64, Instruction, Label,
    Scale, GPR,
};

const CONDITIONS: [(Condition, u8); 20] = [
    (Condition::Above, 0x77),
    (Condition::AboveOrEqual, 0x73),
    (Condition::Below, 0x72),
    (Condition::BelowOrEqual, 0x76),
    (Condition::Carry, 0x72),
    (Condition::NotCarry, 0x73),
    (Condition::Equal, 0x74),
    (Condition::NotEqual, 0x75),
    (Condition::Greater, 0x7F),
    (Condition::GreaterOrEqual, 0x7D),
    (Condition::Less, 0x7C),
    (Condition::LessOrEqual, 0x7E),
    (Condition::Overflow, 0x70),
    (Condition::NotOverflow, 0x71),
    (Condition::Parity, 0x7A),
    (Condition::NotParity, 0x7B),
    (Condition::Sign, 0x78),
    (Condition::NotSign, 0x79),
    (Condition::Zero, 0x74),
    (Condition::NotZero, 0x75),
];

fn ok(instr: Instruction) -> Vec<u8> {
    match encode(&instr) {
        Ok(encoded) => encoded.as_slice().to_vec(),
        Err(error) => panic!("no encoding: {error:?}"),
    }
}

fn err(instr: Instruction) -> EncodingError {
    match encode(&instr) {
        Ok(encoded) => panic!("encoded as {:?}", encoded.as_slice()),
        Err(error) => error,
    }
}

#[test]
fn condition_table() {
    for (cond, opcode) in CONDITIONS {
        assert_eq!(map_cond_to_opcode(cond), opcode);
    }
    assert_eq!(map_cond_to_opcode(Condition::Carry), map_cond_to_opcode(Condition::Below));
    assert_eq!(map_cond_to_opcode(Condition::Zero), map_cond_to_opcode(Condition::Equal));
}

#[test]
fn short_conditional_jump_is_opcode_and_displacement() {
    for (cond, opcode) in CONDITIONS {
        for rel in i8::MIN..=i8::MAX {
            let encoded = encode_jcc_rel8(cond, rel);
            assert_eq!(encoded.len(), 2);
            assert_eq!(encoded.as_slice(), &[opcode, rel as u8]);
        }
    }
}

#[test]
fn wide_conditional_jump_is_escape_opcode_and_displacement() {
    let displacements =
        [0, 1, -1, 127, 128, -128, -129, 0x1234_5678, -0x1234_5678, i32::MAX, i32::MIN, -6];
    for (cond, opcode) in CONDITIONS {
        for rel in displacements {
            let encoded = encode_jcc_rel32(cond, rel);
            let le = rel.to_le_bytes();
            assert_eq!(encoded.len(), 6);
            assert_eq!(encoded.as_slice(), &[0x0F, opcode + 0x10, le[0], le[1], le[2], le[3]]);
        }
    }
    assert_eq!(
        encode_jcc_rel32(Condition::Equal, -6).as_slice(),
        &[0x0F, 0x84, 0xFA, 0xFF, 0xFF, 0xFF]
    );
}

#[test]
fn unconditional_jumps() {
    for rel in i8::MIN..=i8::MAX {
        assert_eq!(encode_jmp_rel8(rel).as_slice(), &[0xEB, rel as u8]);
    }
    assert_eq!(encode_jmp_rel8(-2).as_slice(), &[0xEB, 0xFE]);
    assert_eq!(encode_jmp_rel32(0x1234_5678).as_slice(), &[0xE9, 0x78, 0x56, 0x34, 0x12]);
    assert_eq!(encode_jmp_rel32(-2).as_slice(), &[0xE9, 0xFE, 0xFF, 0xFF, 0xFF]);
    assert_eq!(encode_jmp_rel32(i32::MIN).as_slice(), &[0xE9, 0x00, 0x00, 0x00, 0x80]);
    assert_eq!(encode_jmp_rel32(0).len(), 5);
    assert_eq!(encode_call_rel32(0).as_slice(), &[0xE8, 0, 0, 0, 0]);
    assert_eq!(encode_call_rel32(-5).as_slice(), &[0xE8, 0xFB, 0xFF, 0xFF, 0xFF]);
}

#[test]
fn nop_tables() {
    let tables: [&[u8]; 9] = [
        &[0x90],
        &[0x66, 0x90],
        &[0x0F, 0x1F, 0x00],
        &[0x0F, 0x1F, 0x40, 0x00],
        &[0x0F, 0x1F, 0x44, 0x00, 0x00],
        &[0x66, 0x0F, 0x1F, 0x44, 0x00, 0x00],
        &[0x0F, 0x1F, 0x80, 0x00, 0x00, 0x00, 0x00],
        &[0x0F, 0x1F, 0x84, 0x00, 0x00, 0x00, 0x00, 0x00],
        &[0x66, 0x0F, 0x1F, 0x84, 0x00, 0x00, 0x00, 0x00, 0x00],
    ];
    for (idx, table) in tables.iter().enumerate() {
        let encoded = encode_nop(idx as u8 + 1).unwrap();
        assert_eq!(encoded.as_slice(), *table);
    }
    for size in (0..=0).chain(10..=255) {
        assert_eq!(encode_nop(size).err(), Some(EncodingError::ArgumentOutOfRange));
    }
}

#[test]
fn little_endian_bytes() {
    assert_eq!(byte_of_i8(-1), 0xFF);
    assert_eq!(byte_of_i8(-128), 0x80);
    assert_eq!(byte_of_i8(127), 0x7F);
    for value in [0, 1, -1, 255, 256, -256, 0x7fff_ffff, i32::MIN, 0x0102_0304] {
        assert_eq!(bytes_of_i32(value), value.to_le_bytes());
    }
    for value in [0, 1, -1, i64::MAX, i64::MIN, 0x0102_0304_0506_0708, -0x0102_0304_0506_0708] {
        assert_eq!(bytes_of_i64(value), value.to_le_bytes());
    }
}

#[test]
fn encoded_instruction_holds_its_bytes() {
    let encoded = EncodedInstruction::from_array_unchecked([1, 2, 3]);
    assert_eq!(encoded.len(), 3);
    assert_eq!(encoded.as_slice(), &[1, 2, 3]);
    let encoded = EncodedInstruction::new_unchecked(2, [9; 15]);
    assert_eq!(encoded.as_slice(), &[9, 9]);
    let mut encoded = EncodedInstruction::empty();
    assert_eq!(encoded.len(), 0);
    for byte in 0..15 {
        encoded.push(byte);
    }
    assert_eq!(encoded.len(), 15);
    assert_eq!(encoded.as_slice(), &[0, 1, 2, 3, 4, 5, 6, 7, 8, 9, 10, 11, 12, 13, 14]);
    assert!(std::mem::size_of::<EncodedInstruction>() <= 16);
}

#[test]
fn moves_between_registers() {
    assert_eq!(ok(Instruction::MOV_RR(GPR::RAX, GPR::RBX)), [0x48, 0x89, 0xD8]);
    assert_eq!(ok(Instruction::MOV_RR(GPR::EAX, GPR::ECX)), [0x89, 0xC8]);
    assert_eq!(ok(Instruction::MOV_RR(GPR::AX, GPR::BX)), [0x66, 0x89, 0xD8]);
    assert_eq!(ok(Instruction::MOV_RR(GPR::AL, GPR::BL)), [0x88, 0xD8]);
    assert_eq!(ok(Instruction::MOV_RR(GPR::SIL, GPR::DIL)), [0x40, 0x88, 0xFE]);
    assert_eq!(ok(Instruction::MOV_RR(GPR::R8, GPR::R15)), [0x4D, 0x89, 0xF8]);
    assert_eq!(ok(Instruction::MOV_RR(GPR::R10W, GPR::AX)), [0x66, 0x41, 0x89, 0xC2]);
    assert_eq!(encode_mov_rr(GPR::RAX, GPR::RBX).unwrap().as_slice(), &[0x48, 0x89, 0xD8]);
}

#[test]
fn moves_with_mismatched_or_missing_registers() {
    assert_eq!(
        err(Instruction::MOV_RR(GPR::RAX, GPR::EAX)),
        EncodingError::RegistersSizeMismatch
    );
    assert_eq!(err(Instruction::MOV_RR(GPR::AL, GPR::AX)), EncodingError::RegistersSizeMismatch);
    assert_eq!(
        err(Instruction::MOV_RR(GPR::RAX, GPR::RIP)),
        EncodingError::RegistersSizeMismatch
    );
    assert_eq!(err(Instruction::MOV_RR(GPR::RIP, GPR::RAX)), EncodingError::ArgumentOutOfRange);
    assert_eq!(
        err(Instruction::MOV_RR(GPR::NO_REG, GPR::NO_REG)),
        EncodingError::ArgumentOutOfRange
    );
}

#[test]
fn moves_from_and_to_memory() {
    assert_eq!(
        ok(Instruction::MOV_RM(GPR::RAX, GPR::RBX, Scale::Scale1, 0)),
        [0x48, 0x8B, 0x03]
    );
    assert_eq!(
        ok(Instruction::MOV_RM(GPR::RAX, GPR::RBX, Scale::Scale1, 8)),
        [0x48, 0x8B, 0x43, 0x08]
    );
    assert_eq!(
        ok(Instruction::MOV_RM(GPR::RAX, GPR::RBX, Scale::Scale1, -128)),
        [0x48, 0x8B, 0x43, 0x80]
    );
    assert_eq!(
        ok(Instruction::MOV_RM(GPR::RAX, GPR::RBX, Scale::Scale1, 0x100)),
        [0x48, 0x8B, 0x83, 0x00, 0x01, 0x00, 0x00]
    );
    assert_eq!(
        ok(Instruction::MOV_RM(GPR::RAX, GPR::RBX, Scale::Scale1, -129)),
        [0x48, 0x8B, 0x83, 0x7F, 0xFF, 0xFF, 0xFF]
    );
    assert_eq!(
        ok(Instruction::MOV_RM(GPR::RAX, GPR::RBP, Scale::Scale1, 0)),
        [0x48, 0x8B, 0x45, 0x00]
    );
    assert_eq!(
        ok(Instruction::MOV_RM(GPR::RAX, GPR::R13, Scale::Scale1, 0)),
        [0x49, 0x8B, 0x45, 0x00]
    );
    assert_eq!(
        ok(Instruction::MOV_RM(GPR::RAX, GPR::RSP, Scale::Scale1, 0)),
        [0x48, 0x8B, 0x04, 0x24]
    );
    assert_eq!(
        ok(Instruction::MOV_RM(GPR::RAX, GPR::R12, Scale::Scale1, 16)),
        [0x49, 0x8B, 0x44, 0x24, 0x10]
    );
    assert_eq!(
        ok(Instruction::MOV_RM(GPR::RAX, GPR::RIP, Scale::Scale1, 0x10)),
        [0x48, 0x8B, 0x05, 0x10, 0x00, 0x00, 0x00]
    );
    assert_eq!(
        ok(Instruction::MOV_RM(GPR::EAX, GPR::RCX, Scale::Scale4, 0x20)),
        [0x8B, 0x04, 0x8D, 0x20, 0x00, 0x00, 0x00]
    );
    assert_eq!(
        ok(Instruction::MOV_RM(GPR::EAX, GPR::R9, Scale::Scale8, 0)),
        [0x42, 0x8B, 0x04, 0xCD, 0x00, 0x00, 0x00, 0x00]
    );
    assert_eq!(
        ok(Instruction::MOV_RM(GPR::RAX, GPR::R12, Scale::Scale2, 0)),
        [0x4A, 0x8B, 0x04, 0x65, 0x00, 0x00, 0x00, 0x00]
    );
    assert_eq!(
        ok(Instruction::MOV_RM(GPR::EAX, GPR::NO_REG, Scale::Scale1, 0x1234)),
        [0x8B, 0x04, 0x25, 0x34, 0x12, 0x00, 0x00]
    );
    assert_eq!(
        ok(Instruction::MOV_RM(GPR::R9B, GPR::RAX, Scale::Scale1, 0)),
        [0x44, 0x8A, 0x08]
    );
    assert_eq!(
        ok(Instruction::MOV_MR(GPR::RSP, Scale::Scale1, 16, GPR::RCX)),
        [0x48, 0x89, 0x4C, 0x24, 0x10]
    );
    assert_eq!(
        ok(Instruction::MOV_MR(GPR::RDI, Scale::Scale1, 0, GPR::AL)),
        [0x88, 0x07]
    );
    assert_eq!(
        ok(Instruction::MOV_MR(GPR::RDI, Scale::Scale1, 0, GPR::BPL)),
        [0x40, 0x88, 0x2F]
    );
}

#[test]
fn addresses_that_cannot_be_encoded() {
    for instr in [
        Instruction::MOV_RM(GPR::RAX, GPR::EBX, Scale::Scale1, 0),
        Instruction::MOV_RM(GPR::RAX, GPR::BX, Scale::Scale1, 0),
        Instruction::MOV_RM(GPR::RAX, GPR::RSP, Scale::Scale2, 0),
        Instruction::MOV_RM(GPR::RAX, GPR::RIP, Scale::Scale2, 0),
        Instruction::MOV_RM(GPR::RIP, GPR::RAX, Scale::Scale1, 0),
        Instruction::MOV_MR(GPR::RAX, Scale::Scale1, 0, GPR::NO_REG),
        Instruction::ADD_RM(GPR::RAX, GPR::AL, Scale::Scale1, 0),
        Instruction::COND_MOV_RM(Condition::Equal, GPR::AL, GPR::RAX, Scale::Scale1, 0),
    ] {
        assert_eq!(err(instr), EncodingError::ArgumentOutOfRange);
    }
}

#[test]
fn moves_of_immediates() {
    assert_eq!(
        ok(Instruction::MOV_RI(GPR::EAX, Immediate32::new(42))),
        [0xB8, 0x2A, 0x00, 0x00, 0x00]
    );
    assert_eq!(
        ok(Instruction::MOV_RI(GPR::R9D, Immediate32::new(1))),
        [0x41, 0xB9, 0x01, 0x00, 0x00, 0x00]
    );
    assert_eq!(ok(Instruction::MOV_RI(GPR::AX, Immediate32::new(0x1234))), [0x66, 0xB8, 0x34, 0x12]);
    assert_eq!(ok(Instruction::MOV_RI(GPR::CL, Immediate32::new(7))), [0xB1, 0x07]);
    assert_eq!(ok(Instruction::MOV_RI(GPR::AL, Immediate32::new(255))), [0xB0, 0xFF]);
    assert_eq!(ok(Instruction::MOV_RI(GPR::AL, Immediate32::new(-128))), [0xB0, 0x80]);
    assert_eq!(ok(Instruction::MOV_RI(GPR::SIL, Immediate32::new(1))), [0x40, 0xB6, 0x01]);
    assert_eq!(ok(Instruction::MOV_RI(GPR::R15B, Immediate32::new(1))), [0x41, 0xB7, 0x01]);
    assert_eq!(
        ok(Instruction::MOV_RI(GPR::RAX, Immediate32::new(-1))),
        [0x48, 0xC7, 0xC0, 0xFF, 0xFF, 0xFF, 0xFF]
    );
    assert_eq!(
        ok(Instruction::MOV_RI(GPR::R10, Immediate32::new(5))),
        [0x49, 0xC7, 0xC2, 0x05, 0x00, 0x00, 0x00]
    );
    assert_eq!(
        ok(Instruction::MOV_RI64(GPR::R10, Immediate64::new(0x1122_3344_5566_7788))),
        [0x49, 0xBA, 0x88, 0x77, 0x66, 0x55, 0x44, 0x33, 0x22, 0x11]
    );
    assert_eq!(
        ok(Instruction::MOV_RI64(GPR::RAX, Immediate64::new(-1))),
        [0x48, 0xB8, 0xFF, 0xFF, 0xFF, 0xFF, 0xFF, 0xFF, 0xFF, 0xFF]
    );
    assert_eq!(
        encode_mov_ri(GPR::EAX, Immediate32::new(42)).unwrap().as_slice(),
        &[0xB8, 0x2A, 0x00, 0x00, 0x00]
    );
    for instr in [
        Instruction::MOV_RI(GPR::AL, Immediate32::new(256)),
        Instruction::MOV_RI(GPR::AL, Immediate32::new(-129)),
        Instruction::MOV_RI(GPR::AX, Immediate32::new(0x1_0000)),
        Instruction::MOV_RI(GPR::AX, Immediate32::new(-0x8001)),
        Instruction::MOV_RI(GPR::RIP, Immediate32::new(0)),
        Instruction::MOV_RI64(GPR::EAX, Immediate64::new(0)),
        Instruction::MOV_RI64(GPR::NO_REG, Immediate64::new(0)),
    ] {
        assert_eq!(err(instr), EncodingError::ArgumentOutOfRange);
    }
}

#[test]
fn conditional_moves() {
    assert_eq!(
        ok(Instruction::COND_MOV_RR(Condition::Equal, GPR::RAX, GPR::RBX)),
        [0x48, 0x0F, 0x44, 0xC3]
    );
    assert_eq!(
        ok(Instruction::COND_MOV_RR(Condition::Greater, GPR::R8D, GPR::EAX)),
        [0x44, 0x0F, 0x4F, 0xC0]
    );
    assert_eq!(
        ok(Instruction::COND_MOV_RM(Condition::Less, GPR::ECX, GPR::RDX, Scale::Scale1, 4)),
        [0x0F, 0x4C, 0x4A, 0x04]
    );
    assert_eq!(
        err(Instruction::COND_MOV_RR(Condition::Equal, GPR::AL, GPR::BL)),
        EncodingError::ArgumentOutOfRange
    );
    assert_eq!(
        err(Instruction::COND_MOV_RR(Condition::Equal, GPR::RAX, GPR::EBX)),
        EncodingError::RegistersSizeMismatch
    );
}

#[test]
fn arithmetic_and_logic() {
    assert_eq!(ok(Instruction::ADD_RR(GPR::RAX, GPR::RCX)), [0x48, 0x01, 0xC8]);
    assert_eq!(ok(Instruction::SUB_RR(GPR::EAX, GPR::EDX)), [0x29, 0xD0]);
    assert_eq!(ok(Instruction::AND_RR(GPR::AL, GPR::CL)), [0x20, 0xC8]);
    assert_eq!(ok(Instruction::OR_RR(GPR::AX, GPR::CX)), [0x66, 0x09, 0xC8]);
    assert_eq!(ok(Instruction::XOR_RR(GPR::R8D, GPR::R9D)), [0x45, 0x31, 0xC8]);
    assert_eq!(ok(Instruction::XOR_RR(GPR::EAX, GPR::EAX)), [0x31, 0xC0]);
    assert_eq!(ok(Instruction::CMP_RR(GPR::RAX, GPR::RBX)), [0x48, 0x39, 0xD8]);
    assert_eq!(
        ok(Instruction::ADD_RM(GPR::RAX, GPR::RBX, Scale::Scale1, 8)),
        [0x48, 0x03, 0x43, 0x08]
    );
    assert_eq!(
        ok(Instruction::ADD_MR(GPR::RBX, Scale::Scale1, 8, GPR::RAX)),
        [0x48, 0x01, 0x43, 0x08]
    );
    assert_eq!(ok(Instruction::CMP_RM(GPR::AL, GPR::RDI, Scale::Scale1, 0)), [0x3A, 0x07]);
    assert_eq!(
        ok(Instruction::SUB_RM(GPR::ECX, GPR::RSI, Scale::Scale2, 4)),
        [0x2B, 0x0C, 0x75, 0x04, 0x00, 0x00, 0x00]
    );
    assert_eq!(ok(Instruction::AND_MR(GPR::RAX, Scale::Scale1, 0, GPR::DX)), [0x66, 0x21, 0x10]);
    assert_eq!(ok(Instruction::OR_MR(GPR::RAX, Scale::Scale1, 0, GPR::DL)), [0x08, 0x10]);
    assert_eq!(ok(Instruction::XOR_RM(GPR::RDX, GPR::RAX, Scale::Scale1, 0)), [0x48, 0x33, 0x10]);
    assert_eq!(
        ok(Instruction::ADD_RI(GPR::RAX, Immediate32::new(1))),
        [0x48, 0x81, 0xC0, 0x01, 0x00, 0x00, 0x00]
    );
    assert_eq!(
        ok(Instruction::SUB_RI(GPR::RSP, Immediate32::new(32))),
        [0x48, 0x81, 0xEC, 0x20, 0x00, 0x00, 0x00]
    );
    assert_eq!(ok(Instruction::CMP_RI(GPR::AL, Immediate32::new(5))), [0x80, 0xF8, 0x05]);
    assert_eq!(
        ok(Instruction::AND_RI(GPR::CX, Immediate32::new(0xFF))),
        [0x66, 0x81, 0xE1, 0xFF, 0x00]
    );
    assert_eq!(
        ok(Instruction::XOR_RI(GPR::R11D, Immediate32::new(-1))),
        [0x41, 0x81, 0xF3, 0xFF, 0xFF, 0xFF, 0xFF]
    );
    assert_eq!(ok(Instruction::OR_RI(GPR::DIL, Immediate32::new(1))), [0x40, 0x80, 0xCF, 0x01]);
    assert_eq!(
        encode_alu_rr(AluOperation::Add, GPR::RAX, GPR::RCX).unwrap().as_slice(),
        &[0x48, 0x01, 0xC8]
    );
    assert_eq!(
        encode_alu_ri(AluOperation::Cmp, GPR::AL, Immediate32::new(5)).unwrap().as_slice(),
        &[0x80, 0xF8, 0x05]
    );
    assert_eq!(
        err(Instruction::ADD_RR(GPR::RAX, GPR::ECX)),
        EncodingError::RegistersSizeMismatch
    );
    assert_eq!(
        err(Instruction::ADD_RI(GPR::AL, Immediate32::new(1000))),
        EncodingError::ArgumentOutOfRange
    );
    assert_eq!(
        err(Instruction::CMP_RI(GPR::NO_REG, Immediate32::new(0))),
        EncodingError::ArgumentOutOfRange
    );
}

#[test]
fn jumps_and_calls_through_registers() {
    assert_eq!(ok(Instruction::JUMP_R(GPR::RAX)), [0xFF, 0xE0]);
    assert_eq!(ok(Instruction::JUMP_R(GPR::R8)), [0x41, 0xFF, 0xE0]);
    assert_eq!(ok(Instruction::CALL_R(GPR::RAX)), [0xFF, 0xD0]);
    assert_eq!(ok(Instruction::CALL_R(GPR::R11)), [0x41, 0xFF, 0xD3]);
    assert_eq!(ok(Instruction::COND_JUMP_R(Condition::Equal, GPR::RAX)), [0x75, 0x02, 0xFF, 0xE0]);
    assert_eq!(
        ok(Instruction::COND_JUMP_R(Condition::NotEqual, GPR::R9)),
        [0x74, 0x03, 0x41, 0xFF, 0xE1]
    );
    assert_eq!(encode_jmp_r(GPR::RCX).unwrap().as_slice(), &[0xFF, 0xE1]);
    assert_eq!(encode_call_r(GPR::RDX).unwrap().as_slice(), &[0xFF, 0xD2]);
    assert_eq!(
        encode_jcc_r(Condition::Below, GPR::RBX).unwrap().as_slice(),
        &[0x73, 0x02, 0xFF, 0xE3]
    );
    for instr in [
        Instruction::JUMP_R(GPR::EAX),
        Instruction::JUMP_R(GPR::RIP),
        Instruction::CALL_R(GPR::AX),
        Instruction::CALL_R(GPR::NO_REG),
        Instruction::COND_JUMP_R(Condition::Equal, GPR::AL),
    ] {
        assert_eq!(err(instr), EncodingError::ArgumentOutOfRange);
    }
}

#[test]
fn instructions_that_wait_for_their_label() {
    let label = Label::new(0);
    assert_eq!(ok(Instruction::RET), [0xC3]);
    for instr in [
        Instruction::UNKNOWN,
        Instruction::JUMP_L(label, 0),
        Instruction::COND_JUMP_L(Condition::Equal, label, 0),
        Instruction::CALL_L(label, 0),
        Instruction::MOV_RL(GPR::RAX, label, 0),
    ] {
        assert_eq!(err(instr), EncodingError::ArgumentOutOfRange);
    }
    assert_eq!(reserve_relative(&Instruction::RET), Ok(None));
    assert_eq!(reserve_relative(&Instruction::JUMP_L(label, 0)), Ok(Some(5)));
    assert_eq!(reserve_relative(&Instruction::COND_JUMP_L(Condition::Sign, label, -3)), Ok(Some(6)));
    assert_eq!(reserve_relative(&Instruction::CALL_L(label, 0x4000_0000)), Ok(Some(5)));
    assert_eq!(reserve_relative(&Instruction::MOV_RL(GPR::R9, label, -0x4000_0000)), Ok(Some(7)));
    assert_eq!(
        reserve_relative(&Instruction::MOV_RL(GPR::R9D, label, 0)),
        Err(EncodingError::ArgumentOutOfRange)
    );
    assert_eq!(
        reserve_relative(&Instruction::CALL_L(label, 0x4000_0001)),
        Err(EncodingError::ArgumentOutOfRange)
    );
}

#[test]
fn label_relative_encodings() {
    let label = Label::new(3);
    assert_eq!(encode_relative(&Instruction::JUMP_L(label, 0), 5, true).as_slice(), &[0xEB, 5]);
    assert_eq!(
        encode_relative(&Instruction::JUMP_L(label, 0), 5, false).as_slice(),
        &[0xE9, 5, 0, 0, 0]
    );
    assert_eq!(
        encode_relative(&Instruction::COND_JUMP_L(Condition::Less, label, 0), -4, true).as_slice(),
        &[0x7C, 0xFC]
    );
    assert_eq!(
        encode_relative(&Instruction::COND_JUMP_L(Condition::Less, label, 0), -4, false)
            .as_slice(),
        &[0x0F, 0x8C, 0xFC, 0xFF, 0xFF, 0xFF]
    );
    assert_eq!(
        encode_relative(&Instruction::CALL_L(label, 0), 0x100, false).as_slice(),
        &[0xE8, 0, 1, 0, 0]
    );
    assert_eq!(
        encode_relative(&Instruction::MOV_RL(GPR::RCX, label, 0), 0x100, false).as_slice(),
        &[0x48, 0x8D, 0x0D, 0, 1, 0, 0]
    );
    assert_eq!(
        encode_lea_rip(GPR::R8, -1).unwrap().as_slice(),
        &[0x4C, 0x8D, 0x05, 0xFF, 0xFF, 0xFF, 0xFF]
    );
    assert_eq!(encode_lea_rip(GPR::EAX, 0).err(), Some(EncodingError::ArgumentOutOfRange));
}
