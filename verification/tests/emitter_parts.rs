use de8086::instructions::common::{InstRegister, RM};
use de8086::writer::{Writer, WriterOptions};
use de8086::Instruction;

fn text_of(writer: &Writer) -> String {
    String::from_utf8(writer.as_slice().to_vec()).unwrap()
}

fn quiet() -> Writer {
    Writer::new(WriterOptions { verbose: false })
}

#[test]
fn new_writer_has_written_nothing() {
    let writer = quiet();
    assert!(writer.as_slice().is_empty());
    assert_eq!(writer.next_byte_index(), 0);
    assert_eq!(writer.current_byte_index(), 0);
}

#[test]
fn plain_writes_append() {
    let mut writer = quiet();
    writer
        .write_byte(b'a')
        .write(b"bc")
        .write_str("de")
        .write_comma_separator()
        .write_comment("note")
        .end_line();
    assert_eq!(text_of(&writer), "abcde, ; note\n\n");
    assert_eq!(writer.into_bytes(), b"abcde, ; note\n\n".to_vec());
}

#[test]
fn immediates_are_hexadecimal_literals_of_the_width() {
    let word = Instruction::parse(&[0xBC, 0x12, 0x34]).unwrap();
    let byte = Instruction::parse(&[0xB1, 0x0C]).unwrap();
    let mut writer = quiet();
    writer.write_with_w_flag(0x3412, &word).write_byte(b' ');
    writer.write_with_w_flag(0x0001, &word).write_byte(b' ');
    writer.write_with_w_flag(0xFFFF, &word).write_byte(b' ');
    writer.write_with_w_flag(0x000C, &byte).write_byte(b' ');
    writer.write_with_w_flag(0x0000, &byte).write_byte(b' ');
    writer.write_with_w_flag(0x0123, &byte);
    assert_eq!(text_of(&writer), "0x3412 0x0001 0xffff 0x0c 0x00 0x123");
}

#[test]
fn size_qualifier_follows_the_word_flag() {
    let word = Instruction::parse(&[0xBC, 0x12, 0x34]).unwrap();
    let byte = Instruction::parse(&[0xB1, 0x0C]).unwrap();
    let mut writer = quiet();
    writer.write_size(&word).write_size(&byte);
    writer.write_with_size(0x3412, &word).write_byte(b' ');
    writer.write_with_size(0x0C, &byte);
    assert_eq!(text_of(&writer), "word byte word 0x3412 byte 0x0c");
}

#[test]
fn signed_data_is_read_in_the_width_of_the_instruction() {
    let mut writer = quiet();
    for bytes in [
        &[0x05u8, 0xFF, 0xFF][..],
        &[0x05, 0x00, 0x80],
        &[0x05, 0xFF, 0x7F],
        &[0x04, 0xFF],
        &[0x04, 0x80],
        &[0x04, 0x7F],
        &[0x04, 0x00],
    ] {
        let record = Instruction::parse(bytes).unwrap();
        writer.write_signed_data(&record).write_byte(b' ');
    }
    assert_eq!(text_of(&writer), "-1 -32768 32767 -1 -128 127 0 ");
}

#[test]
fn operands_are_registers_or_bracketed_addresses() {
    let mut writer = quiet();
    let word = Instruction::parse(&[0x89, 0xDC]).unwrap();
    let byte = Instruction::parse(&[0x88, 0xDC]).unwrap();
    assert_eq!(writer.address_to_string(&word, RM::Reg(InstRegister::Reg(6))), b"si");
    assert_eq!(writer.address_to_string(&byte, RM::Reg(InstRegister::Reg(6))), b"dh");
    assert_eq!(writer.address_to_string(&byte, RM::Reg(InstRegister::SegReg(3))), b"ds");
    let forms = [
        "[bx+si]", "[bx+di]", "[bp+si]", "[bp+di]", "[si]", "[di]", "[0]", "[bx]",
    ];
    let memory = Instruction::parse(&[0x8B, 0x07]).unwrap();
    for (index, form) in forms.iter().enumerate() {
        assert_eq!(
            writer.address_to_string(&memory, RM::Eff(index as u8)),
            form.as_bytes()
        );
    }
    let displaced = Instruction::parse(&[0x8B, 0x46, 0x7F]).unwrap();
    assert_eq!(writer.address_to_string(&displaced, RM::Eff(6)), b"[bp+127]");
    let displaced = Instruction::parse(&[0x8B, 0x86, 0x00, 0x80]).unwrap();
    assert_eq!(writer.address_to_string(&displaced, RM::Eff(6)), b"[bp-32768]");
    let displaced = Instruction::parse(&[0x8B, 0x46, 0x00]).unwrap();
    assert_eq!(writer.address_to_string(&displaced, RM::Eff(6)), b"[bp]");
    assert!(writer.as_slice().is_empty());
}

#[test]
fn source_destination_and_rm_follow_the_direction_flag() {
    let to_memory = Instruction::parse(&[0x89, 0x07]).unwrap();
    let mut writer = quiet();
    writer
        .write_destination(&to_memory)
        .write_byte(b'|')
        .write_source(&to_memory)
        .write_byte(b'|')
        .write_rm(&to_memory);
    assert_eq!(text_of(&writer), "[bx]|ax|[bx]");
    let to_register = Instruction::parse(&[0x8B, 0x07]).unwrap();
    let mut writer = quiet();
    writer
        .write_destination(&to_register)
        .write_byte(b'|')
        .write_source(&to_register)
        .write_byte(b'|')
        .write_rm(&to_register);
    assert_eq!(text_of(&writer), "ax|[bx]|[bx]");
}

#[test]
fn segment_override_is_used_once() {
    let record = Instruction::parse(&[0x8B, 0x07]).unwrap();
    let mut writer = quiet();
    writer.set_segment_prefix(2);
    assert_eq!(writer.address_to_string(&record, RM::Reg(InstRegister::Reg(0))), b"ax");
    assert_eq!(writer.address_to_string(&record, RM::Eff(7)), b"ss:[bx]");
    assert_eq!(writer.address_to_string(&record, RM::Eff(7)), b"[bx]");
}

#[test]
fn prefixes_count_as_one_byte_and_write_nothing() {
    let mut writer = quiet();
    writer.set_lock_prefix();
    writer.set_repeat_prefix(0xF3);
    writer.set_segment_prefix(0);
    assert!(writer.as_slice().is_empty());
    assert_eq!(writer.current_byte_index(), 3);
    assert_eq!(writer.next_byte_index(), 3);
    let record = Instruction::parse(&[0xA5]).unwrap();
    writer.start_instruction(&record).end_line();
    assert_eq!(text_of(&writer), "lock rep movsw \n");
    assert_eq!(writer.current_byte_index(), 4);
    // the prefixes are used up
    writer.start_instruction(&record).end_line();
    assert_eq!(text_of(&writer), "lock rep movsw \nmovsw \n");
}

#[test]
fn current_index_is_the_sum_of_the_lengths_written() {
    let encodings: [&[u8]; 7] = [
        &[0x89, 0xDC],
        &[0xF0],
        &[0x86, 0x07],
        &[0x26],
        &[0x8B, 0x1E, 0x12, 0x34],
        &[0xC7, 0x85, 0x85, 0x03, 0x5B, 0x01],
        &[0x74, 0xFE],
    ];
    let mut writer = quiet();
    let mut sum = 0;
    for encoding in encodings {
        let record = Instruction::parse(encoding).unwrap();
        assert!(record.can_write(&writer));
        record.write(&mut writer);
        sum += record.length as usize;
        assert_eq!(writer.current_byte_index(), sum);
        assert_eq!(writer.next_byte_index(), sum);
    }
    assert_eq!(sum, 18);
}

#[test]
fn next_index_runs_ahead_within_a_line() {
    let record = Instruction::parse(&[0x8B, 0x1E, 0x12, 0x34]).unwrap();
    let mut writer = quiet();
    writer.start_instruction(&record);
    assert_eq!(writer.next_byte_index(), 4);
    assert_eq!(writer.current_byte_index(), 0);
    writer.end_line();
    assert_eq!(writer.current_byte_index(), 4);
}

#[test]
fn record_that_is_no_instruction_cannot_be_written() {
    let writer = quiet();
    assert!(!Instruction::empty().can_write(&writer));
}

#[test]
fn jump_before_the_start_cannot_be_written() {
    let writer = quiet();
    let back = Instruction::parse(&[0x74, 0xFD]).unwrap();
    assert!(!back.can_write(&writer));
    let itself = Instruction::parse(&[0x74, 0xFE]).unwrap();
    assert!(itself.can_write(&writer));
    let far_back = Instruction::parse(&[0xE9, 0x00, 0x80]).unwrap();
    assert!(!far_back.can_write(&writer));
}

#[test]
fn label_of_a_misaligned_target_goes_before_the_jump() {
    let mut writer = quiet();
    let long = Instruction::parse(&[0x8B, 0x1E, 0x12, 0x34]).unwrap();
    long.write(&mut writer);
    // back into the middle of the instruction before
    let jump = Instruction::parse(&[0x74, 0xFC]).unwrap();
    jump.write(&mut writer);
    assert_eq!(text_of(&writer), "mov bx, [13330]\nloc_0:\nje loc_0\n");
}

#[test]
fn verbose_writer_comments_each_instruction() {
    let mut writer = Writer::new(WriterOptions { verbose: true });
    let record = Instruction::parse(&[0x8B, 0x1E, 0x12, 0x34]).unwrap();
    record.write(&mut writer);
    assert_eq!(
        text_of(&writer),
        "; 10001011 00011110 00010010 00110100 \nmov bx, [13330]\n"
    );
}
