use osom_x64::{
    Immediate, Immediate32, Immediate64, Instruction, Label, MachineSize, Scale, GPR, XMM, YMM,
};

#[test]
fn test_machine_size_value() {
    let cases = [
        (MachineSize::NoSize, 0, 0),
        (MachineSize::Byte, 1, 1),
        (MachineSize::Word, 2, 2),
        (MachineSize::DWord, 4, 3),
        (MachineSize::QWord, 8, 4),
        (MachineSize::XMMWord, 16, 5),
        (MachineSize::YMMWord, 32, 6),
    ];
    for (size, bytes, code) in cases {
        assert_eq!(size.as_bytes(), bytes);
        assert_eq!(size.as_u8(), code);
        assert_eq!(MachineSize::from_u8(code), size);
    }
}

#[test]
fn scale_codes_and_factors() {
    let cases = [
        (Scale::Scale1, 0, 1),
        (Scale::Scale2, 1, 2),
        (Scale::Scale4, 2, 4),
        (Scale::Scale8, 3, 8),
    ];
    for (scale, code, factor) in cases {
        assert_eq!(scale.as_u8(), code);
        assert_eq!(scale.factor(), factor);
    }
}

#[test]
fn general_registers() {
    let accumulators = [
        (GPR::AL, MachineSize::Byte),
        (GPR::AX, MachineSize::Word),
        (GPR::EAX, MachineSize::DWord),
        (GPR::RAX, MachineSize::QWord),
    ];
    for (reg, size) in accumulators {
        assert_eq!(reg.size(), size);
        assert_eq!(reg.index(), 0);
        assert_eq!(reg.lower_index(), 0);
    }
    let last = [GPR::R15B, GPR::R15W, GPR::R15D, GPR::R15];
    for reg in last {
        assert_eq!(reg.index(), 15);
        assert_eq!(reg.lower_index(), 7);
    }
    assert_eq!(GPR::RSP.index(), 4);
    assert_eq!(GPR::SPL.index(), 4);
    assert_eq!(GPR::RDI.index(), 7);
    assert_eq!(GPR::R8.index(), 8);
    assert_eq!(GPR::R8.lower_index(), 0);
    assert_eq!(GPR::R12D.index(), 12);
    assert_eq!(GPR::R12D.size(), MachineSize::DWord);
    assert_eq!(GPR::RIP.size(), MachineSize::NoSize);
    assert_eq!(GPR::RIP.index(), 0);
    assert_eq!(GPR::NO_REG.size(), MachineSize::NoSize);
    assert_eq!(GPR::NO_REG.index(), 16);
    assert_ne!(GPR::RAX, GPR::EAX);
    assert!(std::mem::size_of::<GPR>() == 1);
}

#[test]
fn vector_registers() {
    assert_eq!(XMM::XMM0.index(), 0);
    assert_eq!(XMM::XMM9.index(), 9);
    assert_eq!(XMM::XMM9.lower_index(), 1);
    assert_eq!(XMM::XMM15.index(), 15);
    assert_eq!(XMM::XMM15.size(), MachineSize::XMMWord);
    assert_eq!(YMM::YMM0.index(), 0);
    assert_eq!(YMM::YMM7.index(), 7);
    assert_eq!(YMM::YMM15.index(), 15);
    assert_eq!(YMM::YMM3.size(), MachineSize::YMMWord);
    assert!(std::mem::size_of::<XMM>() == 1);
    assert!(std::mem::size_of::<YMM>() == 1);
}

#[test]
fn immediates_widen_and_keep_their_bits() {
    assert_eq!(i32::from(Immediate32::new(-5)), -5);
    assert_eq!(Immediate32::from(7i32), Immediate32::new(7));
    assert_eq!(Immediate32::from(0xFFFF_FFFFu32), Immediate32::new(-1));
    assert_eq!(Immediate32::from(0x8000_0000u32), Immediate32::new(i32::MIN));
    assert_eq!(Immediate32::from(5u32), Immediate32::new(5));
    assert_eq!(u64::from(Immediate32::new(-1)), u64::MAX);
    assert_eq!(u64::from(Immediate32::new(3)), 3);
    assert_eq!(Immediate32::new(i32::MIN).as_u64(), 0xFFFF_FFFF_8000_0000);
    assert_eq!(Immediate32::size(), 4);
    assert_eq!(Immediate32::zero(), Immediate32::new(0));

    assert_eq!(i64::from(Immediate64::new(-5)), -5);
    assert_eq!(Immediate64::from(7i64), Immediate64::new(7));
    assert_eq!(Immediate64::from(u64::MAX), Immediate64::new(-1));
    assert_eq!(Immediate64::from(0x8000_0000_0000_0000u64), Immediate64::new(i64::MIN));
    assert_eq!(Immediate64::from(Immediate32::new(-2)), Immediate64::new(-2));
    assert_eq!(u64::from(Immediate64::new(-1)), u64::MAX);
    assert_eq!(Immediate64::new(i64::MIN).as_u64(), 0x8000_0000_0000_0000);
    assert_eq!(Immediate64::size(), 8);
    assert_eq!(Immediate64::zero(), Immediate64::new(0));
}

#[test]
fn labels_are_their_identifiers() {
    assert_eq!(Label::new(7).id(), 7);
    assert_eq!(Label::new(7), Label::new(7));
    assert_ne!(Label::new(7), Label::new(8));
    assert!(std::mem::size_of::<Label>() <= 4);
}

#[test]
fn instructions_name_their_label() {
    let label = Label::new(4);
    assert_eq!(Instruction::JUMP_L(label, 3).label(), Some(label));
    assert_eq!(Instruction::JUMP_L(label, 3).label_offset(), 3);
    assert_eq!(Instruction::MOV_RL(GPR::RAX, label, -3).label(), Some(label));
    assert_eq!(Instruction::MOV_RL(GPR::RAX, label, -3).label_offset(), -3);
    assert_eq!(Instruction::RET.label(), None);
    assert_eq!(Instruction::RET.label_offset(), 0);
    assert_eq!(Instruction::JUMP_R(GPR::RAX).label(), None);
}

fn widened<T: Immediate>(imm: T) -> (u8, u64, u64) {
    (T::size(), imm.as_u64(), imm.into())
}

#[test]
fn immediates_through_their_trait() {
    assert_eq!(widened(Immediate32::new(-2)), (4, u64::MAX - 1, u64::MAX - 1));
    assert_eq!(widened(Immediate64::new(9)), (8, 9, 9));
}
