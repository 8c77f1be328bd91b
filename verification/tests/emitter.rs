use de8086::writer::{Writer, WriterOptions};
use de8086::Instruction;

#[test]
fn test_writer_labels_add_before() {
    let mut writer = Writer::new(WriterOptions { verbose: false });

    let mov_instruction = Instruction::parse(&[0b1000_1001, 0b1101_1000]).unwrap();
    let add_instruction = Instruction::parse(&[0b0000_0001, 0b1101_1000]).unwrap();
    let sub_instruction = Instruction::parse(&[0b0010_1001, 0b1101_1000]).unwrap();
    let je_instruction = Instruction::parse(&[0b0111_0100, 0b0000_0000]).unwrap();
    let rep_instruction = Instruction::parse(&[0b1111_0011]).unwrap();
    let cmps_instruction = Instruction::parse(&[0b1010_0110]).unwrap();

    add_instruction.write(&mut writer);
    sub_instruction.write(&mut writer);

    let length = je_instruction.length + sub_instruction.length + add_instruction.length;
    writer
        .start_instruction(&je_instruction)
        .write_jump_displacement(-(length as i8 as i16))
        .end_line();

    let length = length + je_instruction.length;
    writer
        .start_instruction(&je_instruction)
        .write_jump_displacement(-(length as i8 as i16))
        .end_line();

    add_instruction.write(&mut writer);

    writer
        .start_instruction(&je_instruction)
        .write_jump_displacement(-(je_instruction.length as i8 as i16))
        .end_line();

    let length = je_instruction.length * 2;
    writer
        .start_instruction(&je_instruction)
        .write_jump_displacement(-(length as i8 as i16))
        .end_line();

    mov_instruction.write(&mut writer);
    sub_instruction.write(&mut writer);
    rep_instruction.write(&mut writer);
    cmps_instruction.write(&mut writer);

    let length = je_instruction.length * 3 + sub_instruction.length + mov_instruction.length + 2;
    writer
        .start_instruction(&je_instruction)
        .write_jump_displacement(-(length as i8 as i16))
        .end_line();

    let slice = writer.as_slice();

    assert_eq!(
        std::str::from_utf8(slice).unwrap(),
        "loc_0:
add ax, bx
sub ax, bx
je loc_0
je loc_0
add ax, bx
loc_1:
je loc_1
je loc_1
mov ax, bx
sub ax, bx
rep cmpsb 
je loc_1
"
    );
}

#[test]
fn test_writer_labels_add_after() {
    let mut writer = Writer::new(WriterOptions { verbose: false });

    let add_instruction = Instruction::parse(&[0b0000_0001, 0b1101_1000]).unwrap();
    let sub_instruction = Instruction::parse(&[0b0010_1001, 0b1101_1000]).unwrap();
    let je_instruction = Instruction::parse(&[0b0111_0100, 0b0000_0000]).unwrap();

    let length = je_instruction.length * 2;
    writer
        .start_instruction(&je_instruction)
        .write_jump_displacement(length as i8 as i16)
        .end_line();
    writer
        .start_instruction(&je_instruction)
        .write_jump_displacement(je_instruction.length as i8 as i16)
        .end_line();
    let length = add_instruction.length + sub_instruction.length;
    writer
        .start_instruction(&je_instruction)
        .write_jump_displacement(length as i8 as i16)
        .end_line();

    add_instruction.write(&mut writer);
    sub_instruction.write(&mut writer);

    writer
        .start_instruction(&je_instruction)
        .write_jump_displacement(0)
        .end_line();

    add_instruction.write(&mut writer);

    let slice = writer.as_slice();

    assert_eq!(
        std::str::from_utf8(slice).unwrap(),
        "je loc_0
je loc_0
je loc_1
loc_0:
add ax, bx
sub ax, bx
loc_1:
je loc_2
loc_2:
add ax, bx
"
    );
}
