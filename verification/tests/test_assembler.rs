use osom_x64::encoder::instruction::encode;
use osom_x64::{
    AssembleError, Assembler, Condition, EmitError, EncodingError, Immediate32, Instruction, Label,
    PreassembleError, PreassembledModule, SetLabelError, X64ReleaseAssembler,
    X64ReleasePreassembledModule, GPR,
};

fn preassemble(assembler: X64ReleaseAssembler) -> X64ReleasePreassembledModule {
    match assembler.preassemble() {
        Ok(module) => module,
        Err(_) => panic!("the session has an unbound label"),
    }
}

fn assemble(module: &X64ReleasePreassembledModule) -> Vec<u8> {
    let mut output = Vec::with_capacity(module.content_length());
    let written = match module.assemble(&mut output) {
        Ok(written) => written,
        Err(_) => panic!("the sink refused the module"),
    };
    assert_eq!(written, output.len());
    assert_eq!(written, module.content_length());
    output
}

fn bytes_of(instr: &Instruction) -> Vec<u8> {
    encode(instr).unwrap().as_slice().to_vec()
}

#[test]
fn empty_session_gives_empty_module() {
    let module = preassemble(X64ReleaseAssembler::new());
    assert_eq!(module.content_length(), 0);
    assert_eq!(assemble(&module), Vec::<u8>::new());
    assert!(module.symbols().is_empty());
    assert_eq!(module.symbol_position("anything"), None);
    let module = preassemble(X64ReleaseAssembler::default());
    assert_eq!(module.content_length(), 0);
}

#[test]
fn move_and_return_without_labels() {
    let mov = Instruction::MOV_RI(GPR::EAX, Immediate32::new(42));
    let ret = Instruction::RET;
    let mut assembler = X64ReleaseAssembler::new();
    assert_eq!(assembler.add_instruction(&mov), Ok(5));
    assert_eq!(assembler.add_instruction(&ret), Ok(1));
    let module = preassemble(assembler);
    assert_eq!(module.content_length(), 6);
    let mut expected = bytes_of(&mov);
    expected.extend(bytes_of(&ret));
    assert_eq!(assemble(&module), expected);
    assert_eq!(expected, vec![0xB8, 0x2A, 0x00, 0x00, 0x00, 0xC3]);
}

#[test]
fn labels_are_numbered_in_the_order_first_seen() {
    let mut assembler = X64ReleaseAssembler::new();
    let first = assembler.get_or_create_label("first");
    let second = assembler.get_or_create_label("second");
    let again = assembler.get_or_create_label("first");
    let third = assembler.get_or_create_label("third");
    assert_eq!(first.id(), 0);
    assert_eq!(second.id(), 1);
    assert_eq!(third.id(), 2);
    assert_eq!(again, first);
    assert_eq!(assembler.get_or_create_label("second"), second);
    assert_eq!(assembler.get_or_create_label(""), Label::new(3));
}

#[test]
fn set_label_succeeds_once() {
    let mut assembler = X64ReleaseAssembler::new();
    let label = assembler.get_or_create_label("entry");
    assert_eq!(assembler.set_label(&label), Ok(()));
    assert_eq!(assembler.set_label(&label), Err(SetLabelError::LabelAlreadyExists));
    assert_eq!(assembler.add_bytes(&[1u8, 2, 3]), Ok(3));
    assert_eq!(assembler.set_label(&label), Err(SetLabelError::LabelAlreadyExists));
    let module = preassemble(assembler);
    assert_eq!(module.symbol_position("entry"), Some(0));
}

#[test]
fn unbound_reference_fails_preassembly() {
    let mut assembler = X64ReleaseAssembler::new();
    let bound = assembler.get_or_create_label("bound");
    let label = assembler.get_or_create_label("nowhere");
    assert!(assembler.set_label(&bound).is_ok());
    assert!(assembler.add_instruction(&Instruction::JUMP_L(bound, 0)).is_ok());
    assert!(assembler.add_instruction(&Instruction::CALL_L(label, 0)).is_ok());
    match assembler.preassemble() {
        Err(PreassembleError::LabelNotSet(unbound)) => assert_eq!(unbound, label),
        Ok(_) => panic!("an unbound label went through"),
    }
}

#[test]
fn unbound_reference_to_a_label_without_name_fails_preassembly() {
    let mut assembler = X64ReleaseAssembler::new();
    let label = Label::new(77);
    assert!(assembler.add_instruction(&Instruction::COND_JUMP_L(Condition::Equal, label, 0)).is_ok());
    assert_eq!(assembler.preassemble().err(), Some(PreassembleError::LabelNotSet(label)));
}

#[test]
fn unbound_name_fails_preassembly() {
    let mut assembler = X64ReleaseAssembler::new();
    let first = assembler.get_or_create_label("first");
    let second = assembler.get_or_create_label("second");
    let third = assembler.get_or_create_label("third");
    assert!(assembler.set_label(&first).is_ok());
    assert!(assembler.set_label(&third).is_ok());
    assert_eq!(assembler.preassemble().err(), Some(PreassembleError::LabelNotSet(second)));
}

#[test]
fn the_first_unbound_reference_is_reported() {
    let mut assembler = X64ReleaseAssembler::new();
    let name = assembler.get_or_create_label("name");
    assert_eq!(name.id(), 0);
    assert!(assembler.add_instruction(&Instruction::JUMP_L(Label::new(9), 0)).is_ok());
    assert!(assembler.add_instruction(&Instruction::JUMP_L(Label::new(5), 0)).is_ok());
    assert_eq!(assembler.preassemble().err(), Some(PreassembleError::LabelNotSet(Label::new(9))));
}

#[test]
fn forward_jumps_all_take_the_short_form() {
    for count in [1usize, 2, 3, 40, 500] {
        let mut assembler = X64ReleaseAssembler::new();
        let labels: Vec<Label> =
            (0..count).map(|i| assembler.get_or_create_label(&format!("l{i}"))).collect();
        for i in 0..count {
            assert_eq!(assembler.add_instruction(&Instruction::JUMP_L(labels[i], 0)), Ok(5));
            if i > 0 {
                assert!(assembler.set_label(&labels[i - 1]).is_ok());
            }
        }
        assert!(assembler.set_label(&labels[count - 1]).is_ok());
        let module = preassemble(assembler);
        let mut expected = Vec::new();
        for i in 0..count {
            expected.push(0xEB);
            expected.push(if i + 1 < count { 2 } else { 0 });
        }
        assert_eq!(module.content_length(), 2 * count);
        assert_eq!(assemble(&module), expected);
        for i in 0..count {
            let position = if i + 1 < count { 2 * (i + 2) } else { 2 * count };
            assert_eq!(module.symbol_position(&format!("l{i}")), Some(position));
        }
    }
}

#[test]
fn backward_jump_takes_the_short_form() {
    let mut assembler = X64ReleaseAssembler::new();
    let top = assembler.get_or_create_label("top");
    assert!(assembler.set_label(&top).is_ok());
    assert_eq!(assembler.add_bytes(&[0x90u8; 10]), Ok(10));
    assert_eq!(assembler.add_instruction(&Instruction::COND_JUMP_L(Condition::NotEqual, top, 0)), Ok(6));
    assert_eq!(assembler.add_instruction(&Instruction::RET), Ok(1));
    let module = preassemble(assembler);
    let mut expected = vec![0x90u8; 10];
    expected.extend([0x75, 0xF4, 0xC3]);
    assert_eq!(assemble(&module), expected);
}

#[test]
fn far_jumps_keep_the_long_form() {
    let mut assembler = X64ReleaseAssembler::new();
    let top = assembler.get_or_create_label("top");
    let end = assembler.get_or_create_label("end");
    assert!(assembler.set_label(&top).is_ok());
    assert_eq!(assembler.add_instruction(&Instruction::JUMP_L(end, 0)), Ok(5));
    assert_eq!(assembler.add_bytes(&[0x90u8; 200]), Ok(200));
    assert_eq!(assembler.add_instruction(&Instruction::COND_JUMP_L(Condition::Above, top, 0)), Ok(6));
    assert!(assembler.set_label(&end).is_ok());
    let module = preassemble(assembler);
    let bytes = assemble(&module);
    assert_eq!(bytes.len(), 211);
    // jmp end: E9 rel32, from 5 to 211.
    assert_eq!(&bytes[..5], &[0xE9, 206, 0, 0, 0]);
    // ja top: 0F 87 rel32, from 211 back to 0.
    assert_eq!(&bytes[205..], &[0x0F, 0x87, 0x2D, 0xFF, 0xFF, 0xFF]);
    assert_eq!(module.symbol_position("top"), Some(0));
    assert_eq!(module.symbol_position("end"), Some(211));
}

#[test]
fn a_jump_shrinks_once_the_jumps_it_leads_over_have_shrunk() {
    // The first jump leads over 124 bytes and a second jump. With the
    // second jump long it is 129 bytes from its target, with it short 126.
    let mut assembler = X64ReleaseAssembler::new();
    let far = assembler.get_or_create_label("far");
    let near = assembler.get_or_create_label("near");
    assert_eq!(assembler.add_instruction(&Instruction::JUMP_L(far, 0)), Ok(5));
    assert_eq!(assembler.add_bytes(&[0x90u8; 124]), Ok(124));
    assert_eq!(assembler.add_instruction(&Instruction::JUMP_L(near, 0)), Ok(5));
    assert!(assembler.set_label(&near).is_ok());
    assert!(assembler.set_label(&far).is_ok());
    let module = preassemble(assembler);
    let bytes = assemble(&module);
    assert_eq!(bytes.len(), 2 + 124 + 2);
    assert_eq!(&bytes[..2], &[0xEB, 126]);
    assert_eq!(&bytes[126..], &[0xEB, 0]);
}

#[test]
fn offsets_from_a_label_move_the_target() {
    let mut assembler = X64ReleaseAssembler::new();
    let data = assembler.get_or_create_label("data");
    assert_eq!(assembler.add_instruction(&Instruction::MOV_RL(GPR::RAX, data, 4)), Ok(7));
    assert_eq!(assembler.add_instruction(&Instruction::CALL_L(data, -1)), Ok(5));
    assert_eq!(assembler.add_instruction(&Instruction::JUMP_L(data, 1)), Ok(5));
    assert!(assembler.set_label(&data).is_ok());
    assert_eq!(assembler.add_bytes(&[1u8, 2, 3, 4, 5, 6, 7, 8]), Ok(8));
    let module = preassemble(assembler);
    let bytes = assemble(&module);
    // lea rax, [rip + 11]; call -1 behind its end plus 2; jmp +1.
    assert_eq!(
        bytes,
        vec![
            0x48, 0x8D, 0x05, 11, 0, 0, 0, 0xE8, 1, 0, 0, 0, 0xEB, 1, 1, 2, 3, 4, 5, 6, 7, 8
        ]
    );
    assert_eq!(module.symbol_position("data"), Some(14));
}

#[test]
fn an_offset_beyond_eight_bits_keeps_the_long_form() {
    let mut assembler = X64ReleaseAssembler::new();
    let here = assembler.get_or_create_label("here");
    assert!(assembler.set_label(&here).is_ok());
    assert_eq!(assembler.add_instruction(&Instruction::JUMP_L(here, 200)), Ok(5));
    let module = preassemble(assembler);
    assert_eq!(assemble(&module), vec![0xE9, 195, 0, 0, 0]);
}

#[test]
fn instructions_without_encoding_are_refused() {
    let mut assembler = X64ReleaseAssembler::new();
    let label = assembler.get_or_create_label("label");
    assert_eq!(
        assembler.add_instruction(&Instruction::UNKNOWN),
        Err(EmitError::Encoding(EncodingError::ArgumentOutOfRange))
    );
    assert_eq!(
        assembler.add_instruction(&Instruction::MOV_RR(GPR::RAX, GPR::EAX)),
        Err(EmitError::Encoding(EncodingError::RegistersSizeMismatch))
    );
    assert_eq!(
        assembler.add_instruction(&Instruction::MOV_RL(GPR::EAX, label, 0)),
        Err(EmitError::Encoding(EncodingError::ArgumentOutOfRange))
    );
    assert_eq!(
        assembler.add_instruction(&Instruction::JUMP_L(label, 0x4000_0001)),
        Err(EmitError::Encoding(EncodingError::ArgumentOutOfRange))
    );
    assert_eq!(
        assembler.add_instruction(&Instruction::JUMP_L(label, -0x4000_0001)),
        Err(EmitError::Encoding(EncodingError::ArgumentOutOfRange))
    );
    assert!(assembler.set_label(&label).is_ok());
    let module = preassemble(assembler);
    assert_eq!(module.content_length(), 0);
}

#[test]
fn symbols_list_every_named_label_once() {
    let mut assembler = X64ReleaseAssembler::new();
    let a = assembler.get_or_create_label("a");
    let b = assembler.get_or_create_label("b");
    let anonymous = Label::new(1000);
    assert!(assembler.set_label(&a).is_ok());
    assert_eq!(assembler.add_bytes(&[0u8; 3]), Ok(3));
    assert!(assembler.set_label(&anonymous).is_ok());
    assert_eq!(assembler.add_instruction(&Instruction::JUMP_L(anonymous, 0)), Ok(5));
    assert!(assembler.set_label(&b).is_ok());
    let module = preassemble(assembler);
    let mut symbols = module.symbols();
    symbols.sort();
    assert_eq!(symbols, vec![("a".to_string(), 0), ("b".to_string(), 5)]);
    assert_eq!(module.symbol_position("a"), Some(0));
    assert_eq!(module.symbol_position("b"), Some(5));
    assert_eq!(module.symbol_position("c"), None);
    assert_eq!(assemble(&module), vec![0, 0, 0, 0xEB, 0xFE]);
}

#[test]
fn fragments_of_a_module_form_a_chain() {
    let mut assembler = X64ReleaseAssembler::new();
    let end = assembler.get_or_create_label("end");
    assert_eq!(assembler.add_bytes(&[0x90u8; 4]), Ok(4));
    assert_eq!(assembler.add_instruction(&Instruction::JUMP_L(end, 0)), Ok(5));
    assert_eq!(assembler.add_bytes(&[0x90u8; 3]), Ok(3));
    assert!(assembler.set_label(&end).is_ok());
    let module = preassemble(assembler);
    let mut walk = module.iter_fragments();
    let mut seen = Vec::new();
    while let Some(fragment) = walk.next() {
        seen.push((fragment.offset, fragment.buffer_length, fragment.next_position));
    }
    assert_eq!(seen, vec![(0, 4, 1), (4, 2, 2), (6, 3, 0xffff_ffff)]);
    assert_eq!(module.content_length(), 9);
}

#[test]
fn a_module_made_of_parts() {
    let symbols = vec![
        ("start".to_string(), 0),
        ("loop".to_string(), 2),
        ("start".to_string(), 1),
    ];
    let module = X64ReleasePreassembledModule::new(symbols, vec![1, 2, 3]);
    assert_eq!(module.content_length(), 3);
    assert_eq!(module.symbol_position("start"), Some(1));
    assert_eq!(module.symbol_position("loop"), Some(2));
    assert_eq!(module.symbol_position("end"), None);
    assert_eq!(module.symbols().len(), 2);
    let mut output = vec![9u8];
    assert_eq!(module.assemble(&mut output).ok(), Some(3));
    assert_eq!(output, vec![9, 1, 2, 3]);
}

#[test]
fn instruction_fits_in_sixteen_bytes() {
    assert!(std::mem::size_of::<Instruction>() <= 16);
}

#[test]
fn a_session_takes_a_limited_number_of_bytes() {
    let mut assembler = X64ReleaseAssembler::new();
    let large = vec![0u8; 0x4000_0000];
    assert_eq!(assembler.add_bytes(&large), Err(EmitError::OutOfMemory));
    assert_eq!(assembler.add_bytes(&[0xC3u8]), Ok(1));
    assert_eq!(assembler.add_bytes(&large[..0x3fff_ffff]), Err(EmitError::OutOfMemory));
    assert_eq!(assembler.add_instruction(&Instruction::RET), Ok(1));
    let module = preassemble(assembler);
    assert_eq!(assemble(&module), vec![0xC3, 0xC3]);
}

#[test]
fn an_error_of_the_sink_becomes_an_assemble_error() {
    let refused = std::io::Error::new(std::io::ErrorKind::WriteZero, "the sink is full");
    match AssembleError::from(refused) {
        AssembleError::IO(error) => assert_eq!(error.kind(), std::io::ErrorKind::WriteZero),
        AssembleError::LabelNotSet(_) => panic!("an error of the sink is no unbound label"),
    }
}
