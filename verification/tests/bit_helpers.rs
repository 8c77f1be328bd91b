use de8086::instructions::common::instruction_flags;
use de8086::instructions::common::{effective, mode, register, segment_register};
use de8086::instructions::common::{
    get_data_value, get_disp_value, get_displacement_amount, get_mode, get_register, get_rm,
    get_segment_register, parse_instruction_flags, InstRegister, InstructionDataFields, RM,
};

#[test]
fn test_get_mode() {
    assert_eq!(get_mode(0b00000000), mode::MEMORY_MODE);
    assert_eq!(get_mode(0b01000000), mode::BYTE_DISPLACEMENT);
    assert_eq!(get_mode(0b10000000), mode::WORD_DISPLACEMENT);
    assert_eq!(get_mode(0b11000000), mode::REGISTER_MODE);
}

#[test]
fn test_get_displacement_amount() {
    assert_eq!(get_displacement_amount(0b00000000), 0);
    assert_eq!(get_displacement_amount(0b00000110), 2);
    assert_eq!(get_displacement_amount(0b01000000), 1);
    assert_eq!(get_displacement_amount(0b10000000), 2);
    assert_eq!(get_displacement_amount(0b11000000), 0);
}

#[test]
fn test_get_disp_value() {
    let bytes = [0x01, 0x02, 0x03];

    assert_eq!(get_disp_value(&bytes, 0, 0), 0x00);
    assert_eq!(get_disp_value(&bytes, 1, 0), 0x01);
    assert_eq!(get_disp_value(&bytes, 2, 0), 0x0201);
    assert_eq!(get_disp_value(&bytes, 0, 0), 0x00);
    assert_eq!(get_disp_value(&bytes, 2, 1), 0x0302);
}

#[test]
fn test_get_register() {
    assert_eq!(get_register(0b000), InstRegister::Reg(register::AX));
    assert_eq!(get_register(0b1001), InstRegister::Reg(register::CX));
    assert_eq!(get_register(0b10010), InstRegister::Reg(register::DX));
    assert_eq!(get_register(0b011), InstRegister::Reg(register::BX));
    assert_eq!(get_register(0b100), InstRegister::Reg(register::SP));
    assert_eq!(get_register(0b101), InstRegister::Reg(register::BP));
    assert_eq!(get_register(0b11111110), InstRegister::Reg(register::SI));
    assert_eq!(get_register(0b111), InstRegister::Reg(register::DI));
}

#[test]
fn test_get_rm() {
    assert_eq!(
        get_rm(0b011, mode::REGISTER_MODE),
        RM::Reg(InstRegister::Reg(register::BX))
    );
    assert_eq!(
        get_rm(0b01110, mode::MEMORY_MODE),
        RM::Eff(effective::BP_OR_DIRECT_ADDRESS)
    );
    assert_eq!(
        get_rm(0b11111111, mode::BYTE_DISPLACEMENT),
        RM::Eff(effective::BX)
    );
    assert_eq!(
        get_rm(0b010, mode::WORD_DISPLACEMENT),
        RM::Eff(effective::BP_PLUS_SI)
    );
}

#[test]
fn test_parse_instruction_flags() {
    let flags = parse_instruction_flags(0b00000001);
    assert_eq!(flags & instruction_flags::WORD, instruction_flags::WORD);
    assert_eq!(flags & instruction_flags::SIGN, 0);
    assert_eq!(flags & instruction_flags::DIRECTION, 0);
    assert_eq!(flags & instruction_flags::SHIFT_ROTATE, 0);
    assert_eq!(flags & instruction_flags::ZERO, instruction_flags::ZERO);

    let flags = parse_instruction_flags(0b00000010);
    assert_eq!(flags & instruction_flags::WORD, 0);
    assert_eq!(flags & instruction_flags::SIGN, instruction_flags::SIGN);
    assert_eq!(
        flags & instruction_flags::DIRECTION,
        instruction_flags::DIRECTION
    );
    assert_eq!(
        flags & instruction_flags::SHIFT_ROTATE,
        instruction_flags::SHIFT_ROTATE
    );
    assert_eq!(flags & instruction_flags::ZERO, 0);
}

#[test]
fn test_instruction_data_fields_parse() {
    let fields = InstructionDataFields::parse(0b11000001);
    assert_eq!(fields.mode, mode::REGISTER_MODE);
    assert_eq!(fields.rm, RM::Reg(InstRegister::Reg(register::CX)));

    let fields = InstructionDataFields::parse(0b00000100);
    assert_eq!(fields.mode, mode::MEMORY_MODE);
    assert_eq!(fields.rm, RM::Eff(effective::SI));
}

#[test]
fn displacement_of_one_byte_is_sign_extended() {
    assert_eq!(get_disp_value(&[0x7f], 1, 0), 127);
    assert_eq!(get_disp_value(&[0x80], 1, 0), -128);
    assert_eq!(get_disp_value(&[0xff], 1, 0), -1);
    assert_eq!(get_disp_value(&[0x00, 0xfe], 1, 1), -2);
}

#[test]
fn displacement_of_two_bytes_is_little_endian_and_signed() {
    assert_eq!(get_disp_value(&[0xab, 0xcd], 2, 0), -12885);
    assert_eq!(get_disp_value(&[0xff, 0x7f], 2, 0), 32767);
    assert_eq!(get_disp_value(&[0x00, 0x80], 2, 0), -32768);
    assert_eq!(get_disp_value(&[0x12, 0x34], 2, 0), 13330);
}

#[test]
fn displacement_of_any_other_width_is_zero() {
    assert_eq!(get_disp_value(&[0xff, 0xff], 3, 0), 0);
    assert_eq!(get_disp_value(&[], 0, 7), 0);
}

#[test]
fn data_is_a_byte_or_a_little_endian_word() {
    assert_eq!(get_data_value(&[0x12, 0x34], true, 0), 0x3412);
    assert_eq!(get_data_value(&[0x12, 0x34], false, 0), 0x12);
    assert_eq!(get_data_value(&[0x12, 0x34], false, 1), 0x34);
    assert_eq!(get_data_value(&[0x00, 0xff, 0xff], true, 1), 0xffff);
}

#[test]
fn direct_address_takes_two_displacement_bytes() {
    // mod 00 with r/m 110, whatever the reg field holds
    for reg in 0u8..8 {
        assert_eq!(get_displacement_amount((reg << 3) | 0b110), 2);
    }
    // every other r/m in memory mode takes none
    for rm in [0u8, 1, 2, 3, 4, 5, 7] {
        assert_eq!(get_displacement_amount(rm), 0);
    }
}

#[test]
fn segment_register_is_named_by_two_bits() {
    assert_eq!(get_segment_register(0b00), InstRegister::SegReg(segment_register::ES));
    assert_eq!(get_segment_register(0b01), InstRegister::SegReg(segment_register::CS));
    assert_eq!(get_segment_register(0b10), InstRegister::SegReg(segment_register::SS));
    assert_eq!(get_segment_register(0b11), InstRegister::SegReg(segment_register::DS));
    assert_eq!(get_segment_register(0b11111110), InstRegister::SegReg(segment_register::SS));
}

#[test]
fn register_names_follow_the_tables() {
    let word = ["ax", "cx", "dx", "bx", "sp", "bp", "si", "di"];
    for (index, name) in word.iter().enumerate() {
        assert_eq!(InstRegister::Reg(index as u8).to_str(), *name);
    }
    let segment = ["es", "cs", "ss", "ds"];
    for (index, name) in segment.iter().enumerate() {
        assert_eq!(InstRegister::SegReg(index as u8).to_str(), *name);
    }
}

#[test]
fn flag_tests_read_single_bits() {
    assert!(instruction_flags::has_word_flag(instruction_flags::WORD));
    assert!(!instruction_flags::has_word_flag(instruction_flags::SET - instruction_flags::WORD));
    assert!(instruction_flags::has_sign_flag(instruction_flags::SIGN));
    assert!(!instruction_flags::has_sign_flag(instruction_flags::SET - instruction_flags::SIGN));
    assert!(instruction_flags::has_direction_flag(instruction_flags::DIRECTION));
    assert!(!instruction_flags::has_direction_flag(
        instruction_flags::SET - instruction_flags::DIRECTION
    ));
    assert!(instruction_flags::has_shift_rotate_flag(instruction_flags::SHIFT_ROTATE));
    assert!(!instruction_flags::has_shift_rotate_flag(
        instruction_flags::SET - instruction_flags::SHIFT_ROTATE
    ));
}

#[test]
fn flag_updates_touch_one_bit() {
    for flags in 0u8..=instruction_flags::SET {
        assert_eq!(instruction_flags::set_word(flags), flags | 1);
        assert_eq!(instruction_flags::set_direction(flags), flags | 4);
        assert_eq!(instruction_flags::clear_direction(flags), flags & !4);
        assert_eq!(instruction_flags::invert_direction(flags), flags ^ 4);
    }
}
