use de8086::instructions::common::instruction_flags::{
    has_direction_flag, has_shift_rotate_flag, has_sign_flag, has_word_flag,
};
use de8086::instructions::common::{InstRegister, InstructionDataFields, RM};
use de8086::instructions::descriptions::{ParseFn, WriteFn};
use de8086::instructions::opcode::Opcode;
use de8086::instructions::{resolve, Description};
use de8086::parser::Parser;
use de8086::Instruction;

#[test]
fn parse_yields_nothing_for_no_bytes() {
    assert!(Instruction::parse(&[]).is_none());
}

#[test]
fn parse_yields_nothing_for_an_unknown_byte() {
    for byte in [0x60u8, 0x6F, 0xC0, 0xC1, 0xC8, 0xC9, 0xD6, 0xD8, 0xDF, 0xF1] {
        assert!(Instruction::parse(&[byte, 0x00, 0x00, 0x00, 0x00, 0x00]).is_none());
    }
}

#[test]
fn parse_yields_nothing_for_an_unused_secondary_opcode() {
    assert!(Instruction::parse(&[0xD0, 0xF0]).is_none());
    assert!(Instruction::parse(&[0xF6, 0xC8, 0x00]).is_none());
    assert!(Instruction::parse(&[0xFE, 0xD0]).is_none());
    assert!(Instruction::parse(&[0xFF, 0xF8]).is_none());
}

#[test]
fn parse_yields_nothing_for_a_truncated_instruction() {
    let encodings: [&[u8]; 12] = [
        &[0x89, 0x9A, 0xAB, 0xCD],
        &[0xC7, 0x85, 0x85, 0x03, 0x5B, 0x01],
        &[0xBC, 0x12, 0x34],
        &[0xA1, 0x12, 0x34],
        &[0x81, 0x3F, 0x34, 0x12],
        &[0xF7, 0x07, 0xFF, 0xFF],
        &[0x74, 0xFE],
        &[0xE8, 0x00, 0x00],
        &[0x9A, 0xC8, 0x01, 0x7B, 0x00],
        &[0xC2, 0xF9, 0xFF],
        &[0xCD, 0x0D],
        &[0xE4, 0xC8],
    ];
    for encoding in encodings {
        let whole = Instruction::parse(encoding).unwrap();
        assert_eq!(whole.length as usize, encoding.len());
        for cut in 0..encoding.len() {
            assert!(Instruction::parse(&encoding[..cut]).is_none());
        }
    }
}

#[test]
fn parse_reads_only_the_bytes_of_the_encoding() {
    let encodings: [&[u8]; 8] = [
        &[0x90],
        &[0x89, 0xDC],
        &[0x8B, 0x5E, 0x04],
        &[0x8B, 0x1E, 0x12, 0x34],
        &[0x9A, 0xC8, 0x01, 0x7B, 0x00],
        &[0xC7, 0x85, 0x85, 0x03, 0x5B, 0x01],
        &[0x83, 0xC3, 0x05],
        &[0xD4, 0x0A],
    ];
    for encoding in encodings {
        let alone = Instruction::parse(encoding).unwrap();
        for filler in [0x00u8, 0x0A, 0xFF] {
            let mut stream = encoding.to_vec();
            stream.extend_from_slice(&[filler; 7]);
            let followed = Instruction::parse(&stream).unwrap();
            assert_eq!(followed.length as usize, encoding.len());
            assert_eq!(followed.opcode, alone.opcode);
            assert_eq!(followed.flags, alone.flags);
            assert_eq!(followed.register, alone.register);
            assert_eq!(followed.data_fields, alone.data_fields);
            assert_eq!(followed.disp, alone.disp);
            assert_eq!(followed.data, alone.data);
            assert_eq!(followed.description, alone.description);
            assert_eq!(followed.input, alone.input);
        }
    }
}

#[test]
fn parsed_record_retains_the_bytes_of_the_encoding() {
    let record = Instruction::parse(&[0x8B, 0x1E, 0x12, 0x34, 0x77, 0x88, 0x99]).unwrap();
    assert_eq!(record.length, 4);
    assert_eq!(record.input, [0x8B, 0x1E, 0x12, 0x34, 0x00, 0x00]);
    let record = Instruction::parse(&[0xC7, 0x85, 0x85, 0x03, 0x5B, 0x01, 0x99]).unwrap();
    assert_eq!(record.length, 6);
    assert_eq!(record.input, [0xC7, 0x85, 0x85, 0x03, 0x5B, 0x01]);
}

#[test]
fn typical_record_has_all_fields() {
    let record = Instruction::parse(&[0x89, 0x9A, 0xAB, 0xCD]).unwrap();
    assert_eq!(record.opcode, Opcode::MOV);
    assert_eq!(record.length, 4);
    assert!(has_word_flag(record.flags));
    assert!(!has_direction_flag(record.flags));
    assert_eq!(record.register, InstRegister::Reg(3));
    assert_eq!(record.data_fields, InstructionDataFields { mode: 2, rm: RM::Eff(2) });
    assert_eq!(record.disp, -12885);
    assert_eq!(record.get_source(), RM::Reg(InstRegister::Reg(3)));
    assert_eq!(record.get_destination(), RM::Eff(2));
    assert_eq!(
        record.description,
        Description { parse_fn: ParseFn::Typical(Opcode::MOV), write_fn: WriteFn::Typical }
    );
}

#[test]
fn direct_address_is_not_bp() {
    let record = Instruction::parse(&[0x8B, 0x1E, 0x12, 0x34]).unwrap();
    assert_eq!(record.length, 4);
    assert_eq!(record.data_fields, InstructionDataFields { mode: 0, rm: RM::Eff(6) });
    assert_eq!(record.disp, 13330);
    // [bp] itself needs a displacement byte
    let record = Instruction::parse(&[0x8B, 0x5E, 0x00]).unwrap();
    assert_eq!(record.length, 3);
    assert_eq!(record.data_fields, InstructionDataFields { mode: 1, rm: RM::Eff(6) });
    assert_eq!(record.disp, 0);
}

#[test]
fn byte_displacement_is_sign_extended() {
    let record = Instruction::parse(&[0x8B, 0x5E, 0xFC]).unwrap();
    assert_eq!(record.disp, -4);
    let record = Instruction::parse(&[0x8B, 0x5E, 0x7F]).unwrap();
    assert_eq!(record.disp, 127);
    let record = Instruction::parse(&[0x8B, 0x5E, 0x80]).unwrap();
    assert_eq!(record.disp, -128);
}

#[test]
fn sign_extended_immediate_is_one_byte_for_a_word_operand() {
    let record = Instruction::parse(&[0x83, 0xEB, 0xFF]).unwrap();
    assert_eq!(record.opcode, Opcode::SUB);
    assert_eq!(record.length, 3);
    assert!(has_word_flag(record.flags));
    assert!(has_sign_flag(record.flags));
    assert_eq!(record.data, 0xFFFF);
    let record = Instruction::parse(&[0x83, 0xC3, 0x7F]).unwrap();
    assert_eq!(record.data, 0x007F);
    // without the sign flag the immediate of a word operand is a word
    let record = Instruction::parse(&[0x81, 0xEB, 0xFF, 0x00]).unwrap();
    assert_eq!(record.length, 4);
    assert_eq!(record.data, 0x00FF);
    // a byte operand has a byte immediate, whatever the sign flag
    let record = Instruction::parse(&[0x82, 0xEB, 0xFF]).unwrap();
    assert_eq!(record.length, 3);
    assert!(!has_word_flag(record.flags));
    assert_eq!(record.data, 0x00FF);
}

#[test]
fn accumulator_move_inverts_the_direction_bit() {
    let load = Instruction::parse(&[0xA1, 0x12, 0x34]).unwrap();
    assert!(has_direction_flag(load.flags));
    assert_eq!(load.get_destination(), RM::Reg(InstRegister::Reg(0)));
    assert_eq!(load.get_source(), RM::Eff(6));
    let store = Instruction::parse(&[0xA3, 0x12, 0x34]).unwrap();
    assert!(!has_direction_flag(store.flags));
    assert_eq!(store.get_destination(), RM::Eff(6));
    assert_eq!(store.get_source(), RM::Reg(InstRegister::Reg(0)));
}

#[test]
fn forced_flags() {
    let record = Instruction::parse(&[0x8C, 0xC3]).unwrap();
    assert!(has_word_flag(record.flags));
    assert_eq!(record.register, InstRegister::SegReg(0));
    let record = Instruction::parse(&[0x8D, 0x07]).unwrap();
    assert!(has_word_flag(record.flags));
    assert!(has_direction_flag(record.flags));
    let record = Instruction::parse(&[0xF6, 0xC3, 0x14]).unwrap();
    assert!(!has_direction_flag(record.flags));
    let record = Instruction::parse(&[0xD2, 0x07]).unwrap();
    assert!(has_shift_rotate_flag(record.flags));
    let record = Instruction::parse(&[0x43]).unwrap();
    assert!(has_word_flag(record.flags));
}

#[test]
fn prefixes_are_records_of_one_byte() {
    let lock = Instruction::parse(&[0xF0, 0x86, 0x07]).unwrap();
    assert_eq!(lock.opcode, Opcode::LOCK);
    assert_eq!(lock.length, 1);
    assert!(lock.opcode.is_prefix());
    for byte in [0xF2u8, 0xF3] {
        let rep = Instruction::parse(&[byte, 0xA4]).unwrap();
        assert_eq!(rep.opcode, Opcode::REP);
        assert_eq!(rep.length, 1);
        assert_eq!(rep.input[0], byte);
    }
    for (byte, segment) in [(0x26u8, 0u8), (0x2E, 1), (0x36, 2), (0x3E, 3)] {
        let prefix = Instruction::parse(&[byte, 0x8B, 0x07]).unwrap();
        assert_eq!(prefix.opcode, Opcode::SEGMENT);
        assert_eq!(prefix.length, 1);
        assert_eq!(prefix.register, InstRegister::SegReg(segment));
        assert_eq!(u8::from(prefix.register), segment);
    }
    assert!(!Opcode::MOV.is_prefix());
}

#[test]
fn resolver_picks_by_the_first_byte() {
    let cases: [(u8, ParseFn, WriteFn); 10] = [
        (0x88, ParseFn::Typical(Opcode::MOV), WriteFn::Typical),
        (0xB0, ParseFn::MovImmediateToRegister, WriteFn::Immediate),
        (0xBF, ParseFn::MovImmediateToRegister, WriteFn::Immediate),
        (0xA3, ParseFn::MovMemoryToAccumulator, WriteFn::Typical),
        (0x57, ParseFn::PushPopRegister(Opcode::PUSH), WriteFn::PushOrPop),
        (0x58, ParseFn::PushPopRegister(Opcode::POP), WriteFn::PushOrPop),
        (0x86, ParseFn::Typical(Opcode::XCHG), WriteFn::Typical),
        (0x84, ParseFn::Typical(Opcode::TEST), WriteFn::Typical),
        (0x3D, ParseFn::ImmediateToAccumulator(Opcode::CMP), WriteFn::Immediate),
        (0x60, ParseFn::Unknown, WriteFn::Unimplemented),
    ];
    for (byte, parse_fn, write_fn) in cases {
        assert_eq!(resolve(&[byte]), Description { parse_fn, write_fn });
    }
}

#[test]
fn resolver_picks_by_the_reg_field_of_the_second_byte() {
    let shifts = [
        Some(Opcode::ROL), Some(Opcode::ROR), Some(Opcode::RCL), Some(Opcode::RCR),
        Some(Opcode::SAL), Some(Opcode::SHR), None, Some(Opcode::SAR),
    ];
    for (reg, opcode) in shifts.iter().enumerate() {
        let expected = match opcode {
            Some(opcode) => Description {
                parse_fn: ParseFn::Typical(*opcode),
                write_fn: WriteFn::Logic,
            },
            None => Description { parse_fn: ParseFn::Unknown, write_fn: WriteFn::Unimplemented },
        };
        for first in 0xD0u8..=0xD3 {
            assert_eq!(resolve(&[first, (reg as u8) << 3]), expected);
        }
    }
    assert_eq!(
        resolve(&[0xFF, 0x30]),
        Description { parse_fn: ParseFn::PushPopRegisterOrMemory, write_fn: WriteFn::PushOrPop }
    );
    assert_eq!(
        resolve(&[0xFF, 0x10]),
        Description {
            parse_fn: ParseFn::IndirectWithinSegment,
            write_fn: WriteFn::IndirectWithinSegment
        }
    );
    assert_eq!(
        resolve(&[0xFF, 0x28]),
        Description {
            parse_fn: ParseFn::IndirectIntersegment,
            write_fn: WriteFn::IndirectIntersegment
        }
    );
    // without a second byte nothing is selected
    assert_eq!(
        resolve(&[0xFF]),
        Description { parse_fn: ParseFn::Unknown, write_fn: WriteFn::Unimplemented }
    );
}

#[test]
fn descriptor_decodes_into_the_record_it_is_given() {
    let mut record = Instruction::empty();
    let description = resolve(&[0xBC, 0x12, 0x34]);
    description.parse(&[0xBC, 0x12, 0x34], &mut record);
    assert_eq!(record.opcode, Opcode::MOV);
    assert_eq!(record.length, 3);
    assert_eq!(record.register, InstRegister::Reg(4));
    assert_eq!(record.data, 0x3412);
    // bytes that end too early leave a record of length zero
    description.parse(&[0xBC, 0x12], &mut record);
    assert_eq!(record.opcode, Opcode::UNKNOWN);
    assert_eq!(record.length, 0);
}

#[test]
fn empty_record_is_no_instruction() {
    let record = Instruction::empty();
    assert_eq!(record.opcode, Opcode::UNKNOWN);
    assert_eq!(record.length, 0);
    assert_eq!(record.input, [0; 6]);
    assert_eq!(record.data_fields, InstructionDataFields::empty());
    assert_eq!(
        InstructionDataFields::direct_address(),
        InstructionDataFields { mode: 0, rm: RM::Eff(6) }
    );
}

#[test]
fn operand_names_follow_the_width() {
    let word = Instruction::parse(&[0x89, 0xDC]).unwrap();
    assert_eq!(word.source_string(), "bx");
    assert_eq!(word.destination_string(), "sp");
    let byte = Instruction::parse(&[0x88, 0xDC]).unwrap();
    assert_eq!(byte.source_string(), "bl");
    assert_eq!(byte.destination_string(), "ah");
}

#[test]
fn mnemonics_are_lowercase_and_not_empty() {
    let opcodes = [
        Opcode::MOV, Opcode::PUSH, Opcode::POP, Opcode::XCHG, Opcode::IN, Opcode::OUT,
        Opcode::XLAT, Opcode::LEA, Opcode::LDS, Opcode::LES, Opcode::LAHF, Opcode::SAHF,
        Opcode::PUSHF, Opcode::POPF, Opcode::ADD, Opcode::ADC, Opcode::INC, Opcode::AAA,
        Opcode::DAA, Opcode::SUB, Opcode::SBB, Opcode::DEC, Opcode::NEG, Opcode::CMP,
        Opcode::AAS, Opcode::DAS, Opcode::MUL, Opcode::IMUL, Opcode::AAM, Opcode::DIV,
        Opcode::IDIV, Opcode::AAD, Opcode::CBW, Opcode::CWD, Opcode::NOT, Opcode::SAL,
        Opcode::SHR, Opcode::SAR, Opcode::ROL, Opcode::ROR, Opcode::RCL, Opcode::RCR,
        Opcode::AND, Opcode::TEST, Opcode::OR, Opcode::XOR, Opcode::MOVSB, Opcode::MOVSW,
        Opcode::CMPSB, Opcode::CMPSW, Opcode::SCASB, Opcode::SCASW, Opcode::LODSB,
        Opcode::LODSW, Opcode::STOSB, Opcode::STOSW, Opcode::CALL, Opcode::JMP, Opcode::RET,
        Opcode::RETF, Opcode::JE, Opcode::JL, Opcode::JLE, Opcode::JB, Opcode::JBE,
        Opcode::JP, Opcode::JO, Opcode::JS, Opcode::JNE, Opcode::JGE, Opcode::JG,
        Opcode::JAE, Opcode::JA, Opcode::JNP, Opcode::JNO, Opcode::JNS, Opcode::LOOP,
        Opcode::LOOPZ, Opcode::LOOPNZ, Opcode::JCXZ, Opcode::INT, Opcode::INT3,
        Opcode::INTO, Opcode::IRET, Opcode::CLC, Opcode::CMC, Opcode::STC, Opcode::CLD,
        Opcode::STD, Opcode::CLI, Opcode::STI, Opcode::HLT, Opcode::WAIT, Opcode::NOP,
        Opcode::LOCK, Opcode::REP, Opcode::SEGMENT, Opcode::UNKNOWN,
    ];
    for opcode in opcodes {
        let mnemonic = opcode.get_mnemonic();
        assert!(!mnemonic.is_empty());
        assert!(mnemonic
            .chars()
            .all(|c| c.is_ascii_lowercase() || c.is_ascii_digit()));
        assert_eq!(mnemonic, format!("{:?}", opcode).to_lowercase());
    }
}

#[test]
fn parser_refuses_empty_input() {
    let error = Parser::build(&[]).unwrap_err();
    assert_eq!(error.to_string(), "Could not initialize parser.");
}

#[test]
fn parser_yields_one_record_per_encoding() {
    let bytes = [
        0x89, 0xDC, // mov sp, bx
        0x8B, 0x1E, 0x12, 0x34, // mov bx, [13330]
        0xF3, // rep
        0xA6, // cmpsb
        0xC7, 0x85, 0x85, 0x03, 0x5B, 0x01, // mov word [di+901], 0x015b
        0x74, 0xFE, // je
    ];
    let mut parser = Parser::build(&bytes).unwrap();
    let mut lengths = Vec::new();
    let mut position = 0;
    assert_eq!(parser.position(), 0);
    while let Some(record) = parser.next() {
        let length = record.length as usize;
        assert_eq!(&record.input[..length], &bytes[position..position + length]);
        position += length;
        assert_eq!(parser.position(), position);
        lengths.push(record.length);
    }
    assert_eq!(lengths, vec![2, 4, 1, 1, 6, 2]);
    assert_eq!(position, bytes.len());
    assert!(parser.next().is_none());
    assert_eq!(parser.position(), bytes.len());
}

#[test]
fn parser_stops_before_bytes_that_are_no_instruction() {
    let bytes = [0x89, 0xDC, 0x60, 0x89, 0xDC];
    let mut parser = Parser::build(&bytes).unwrap();
    assert!(parser.next().is_some());
    assert!(parser.next().is_none());
    assert_eq!(parser.position(), 2);
    assert!(parser.next().is_none());
    assert_eq!(parser.position(), 2);
}
