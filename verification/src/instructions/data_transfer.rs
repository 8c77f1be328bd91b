//! `XCHG` with the accumulator, `IN` and `OUT`, `LEA`, `LDS`, `LES` and the
//! single-byte data transfers.
use vstd::prelude::*;
use crate::instructions::common::{
    create_single_byte_instruction,
    get_register,
    lemma_byte_fields,
    parse_bare_instruction,
    parse_instruction_flags,
    parse_typical_instruction,
    parse_unknown_instruction,
    spec_create_single_byte_instruction,
    spec_parse_bare_instruction,
    spec_parse_instruction_flags,
    spec_parse_typical_instruction,
    spec_unknown_instruction,
    word_register_name,
    word_register_str,
    InstRegister,
};
use crate::instructions::common::instruction_flags::{
    set_direction,
    set_word,
    with_direction,
    with_word,
};
use crate::instructions::common::register;
use crate::instructions::instruction::Instruction;
use crate::instructions::opcode::Opcode;
use crate::text::{ascii, decimal, push_decimal};
use crate::writer::{Writer, WriterView};

verus! {

/// The data transfer instruction that a first byte stands for, among those
/// told apart by that byte alone.
pub open spec fn spec_data_transfer_opcode(byte: u8) -> Option<Opcode> {
    if byte == 0xD7 {
        Some(Opcode::XLAT)
    } else if byte == 0x8D {
        Some(Opcode::LEA)
    } else if byte == 0xC5 {
        Some(Opcode::LDS)
    } else if byte == 0xC4 {
        Some(Opcode::LES)
    } else if byte == 0x9F {
        Some(Opcode::LAHF)
    } else if byte == 0x9E {
        Some(Opcode::SAHF)
    } else if byte == 0x9C {
        Some(Opcode::PUSHF)
    } else if byte == 0x9D {
        Some(Opcode::POPF)
    } else {
        None
    }
}

/// The data transfer instruction that the first byte `byte` stands for.
#[verifier::when_used_as_spec(spec_data_transfer_opcode)]
pub fn data_transfer_opcode(byte: u8) -> (opcode: Option<Opcode>)
    ensures
        opcode == spec_data_transfer_opcode(byte),
{
    match byte {
        0b11010111 => Some(Opcode::XLAT),
        0b10001101 => Some(Opcode::LEA),
        0b11000101 => Some(Opcode::LDS),
        0b11000100 => Some(Opcode::LES),
        0b10011111 => Some(Opcode::LAHF),
        0b10011110 => Some(Opcode::SAHF),
        0b10011100 => Some(Opcode::PUSHF),
        0b10011101 => Some(Opcode::POPF),
        _ => None,
    }
}

/// `XCHG` of a register with the accumulator: the three lowest bits of the
/// single byte name the register, which is held as the destination.
pub open spec fn spec_parse_xchg_register_with_accumulator(
    bytes: Seq<u8>,
    inst: Instruction,
) -> Instruction {
    if bytes.len() < 1 {
        spec_unknown_instruction(inst)
    } else {
        spec_create_single_byte_instruction(inst, Opcode::XCHG, InstRegister::Reg(bytes[0] % 8))
    }
}

/// Decodes `bytes` into `inst`, as [`spec_parse_xchg_register_with_accumulator`] says.
pub fn parse_xchg_register_with_accumulator(bytes: &[u8], inst: &mut Instruction)
    ensures
        *final(inst) == spec_parse_xchg_register_with_accumulator(bytes@, *old(inst)),
{
    if bytes.len() < 1 {
        parse_unknown_instruction(inst);
        return ;
    }
    let register = get_register(bytes[0]);
    create_single_byte_instruction(inst, Opcode::XCHG, register);
    // The register is the destination, the accumulator the source.
    inst.flags = set_direction(inst.flags);
}

/// `LEA`, `LDS` or `LES`: the typical encoding with a word register as the
/// destination. Any other first byte is no such instruction.
pub open spec fn spec_parse_lea_lds_les(bytes: Seq<u8>, inst: Instruction) -> Instruction {
    if bytes.len() < 1 || !(bytes[0] == 0x8D || bytes[0] == 0xC5 || bytes[0] == 0xC4) {
        spec_unknown_instruction(inst)
    } else {
        let typical = spec_parse_typical_instruction(
            inst,
            spec_data_transfer_opcode(bytes[0])->0,
            bytes,
        );
        if typical.length == 0 {
            typical
        } else {
            Instruction { flags: with_direction(with_word(typical.flags)), ..typical }
        }
    }
}

/// Decodes `bytes` into `inst`, as [`spec_parse_lea_lds_les`] says.
pub fn parse_lea_lds_les(bytes: &[u8], inst: &mut Instruction)
    ensures
        *final(inst) == spec_parse_lea_lds_les(bytes@, *old(inst)),
{
    if bytes.len() < 1 || !(bytes[0] == 0x8D || bytes[0] == 0xC5 || bytes[0] == 0xC4) {
        parse_unknown_instruction(inst);
        return ;
    }
    match data_transfer_opcode(bytes[0]) {
        Some(opcode) => {
            parse_typical_instruction(inst, opcode, bytes);
            if inst.length != 0 {
                inst.flags = set_direction(set_word(inst.flags));
            }
        },
        None => {
            parse_unknown_instruction(inst);
        },
    }
}

/// `XLAT`, `LAHF`, `SAHF`, `PUSHF` or `POPF`: a single byte. Any other
/// first byte is no such instruction.
pub open spec fn spec_parse_other_data_transfer(bytes: Seq<u8>, inst: Instruction) -> Instruction {
    if bytes.len() < 1 || bytes[0] == 0x8D || bytes[0] == 0xC5 || bytes[0] == 0xC4 {
        spec_unknown_instruction(inst)
    } else {
        match spec_data_transfer_opcode(bytes[0]) {
            Some(opcode) => spec_parse_bare_instruction(inst, opcode),
            None => spec_unknown_instruction(inst),
        }
    }
}

/// Decodes `bytes` into `inst`, as [`spec_parse_other_data_transfer`] says.
pub fn parse_other_data_transfer(bytes: &[u8], inst: &mut Instruction)
    ensures
        *final(inst) == spec_parse_other_data_transfer(bytes@, *old(inst)),
{
    if bytes.len() < 1 || bytes[0] == 0x8D || bytes[0] == 0xC5 || bytes[0] == 0xC4 {
        parse_unknown_instruction(inst);
        return ;
    }
    match data_transfer_opcode(bytes[0]) {
        Some(opcode) => parse_bare_instruction(inst, opcode),
        None => parse_unknown_instruction(inst),
    }
}

/// `OUT` if bit 1 of the opcode byte is set, else `IN`.
pub open spec fn spec_get_in_or_out_opcode(byte: u8) -> Opcode {
    if (byte / 2) % 2 == 0 {
        Opcode::IN
    } else {
        Opcode::OUT
    }
}

/// `OUT` if bit 1 of the opcode byte is set, else `IN`.
#[verifier::when_used_as_spec(spec_get_in_or_out_opcode)]
pub fn get_in_or_out_opcode(byte: u8) -> (opcode: Opcode)
    ensures
        opcode == spec_get_in_or_out_opcode(byte),
{
    proof {
        lemma_byte_fields(byte);
    }
    let second_bit = (byte >> 1) & 0b1;
    if second_bit == 0 {
        Opcode::IN
    } else {
        Opcode::OUT
    }
}

/// `IN` or `OUT` with the port in the byte behind the opcode byte.
pub open spec fn spec_parse_in_out_fixed_port(bytes: Seq<u8>, inst: Instruction) -> Instruction {
    if bytes.len() < 2 {
        spec_unknown_instruction(inst)
    } else {
        Instruction {
            opcode: spec_get_in_or_out_opcode(bytes[0]),
            length: 2,
            flags: spec_parse_instruction_flags(bytes[0]),
            register: InstRegister::Reg(0),
            data: bytes[1] as u16,
            ..inst
        }
    }
}

/// Decodes `bytes` into `inst`, as [`spec_parse_in_out_fixed_port`] says.
pub fn parse_in_out_fixed_port(bytes: &[u8], inst: &mut Instruction)
    ensures
        *final(inst) == spec_parse_in_out_fixed_port(bytes@, *old(inst)),
{
    if bytes.len() < 2 {
        parse_unknown_instruction(inst);
        return ;
    }
    inst.opcode = get_in_or_out_opcode(bytes[0]);
    inst.length = 2;
    inst.flags = parse_instruction_flags(bytes[0]);
    inst.register = InstRegister::Reg(register::AX);
    inst.data = bytes[1] as u16;
}

/// `IN` or `OUT` with the port in `DX`.
pub open spec fn spec_parse_in_out_variable_port(bytes: Seq<u8>, inst: Instruction) -> Instruction {
    if bytes.len() < 1 {
        spec_unknown_instruction(inst)
    } else {
        Instruction {
            opcode: spec_get_in_or_out_opcode(bytes[0]),
            length: 1,
            flags: spec_parse_instruction_flags(bytes[0]),
            register: InstRegister::Reg(0),
            ..inst
        }
    }
}

/// Decodes `bytes` into `inst`, as [`spec_parse_in_out_variable_port`] says.
pub fn parse_in_out_variable_port(bytes: &[u8], inst: &mut Instruction)
    ensures
        *final(inst) == spec_parse_in_out_variable_port(bytes@, *old(inst)),
{
    if bytes.len() < 1 {
        parse_unknown_instruction(inst);
        return ;
    }
    inst.opcode = get_in_or_out_opcode(bytes[0]);
    inst.length = 1;
    inst.flags = parse_instruction_flags(bytes[0]);
    inst.register = InstRegister::Reg(register::AX);
}

/// The two operands of `IN` or `OUT`: the accumulator comes first for `IN`,
/// the port for every other instruction. The text of the accumulator, the
/// destination operand of the record, is made before the line begins.
pub open spec fn spec_write_in_out(
    view: WriterView,
    inst: Instruction,
    port: Seq<u8>,
) -> WriterView {
    let destination = inst.spec_get_destination();
    let accumulator = view.operand_text(inst, destination);
    let started = view.after_operand(destination).start_instruction(inst);
    if inst.opcode == Opcode::IN {
        started.append(accumulator).append(ascii(", "@)).append(port).end_line()
    } else {
        started.append(port).append(ascii(", "@)).append(accumulator).end_line()
    }
}

/// `IN` or `OUT` with the port, in decimal, as an operand.
pub open spec fn spec_write_in_out_fixed_port(view: WriterView, inst: Instruction) -> WriterView {
    spec_write_in_out(view, inst, decimal(inst.data as nat))
}

/// Writes the line of the record, as [`spec_write_in_out_fixed_port`] says.
pub fn write_in_out_fixed_port(writer: &mut Writer, instruction: &Instruction)
    requires
        old(writer)@.accepts(*instruction),
    ensures
        final(writer)@ == spec_write_in_out_fixed_port(old(writer)@, *instruction),
        final(writer)@.wf(),
{
    let destination_string = writer.address_to_string(instruction, instruction.get_destination());
    let mut data_string: Vec<u8> = Vec::new();
    push_decimal(&mut data_string, instruction.data as usize);
    let is_in = instruction.opcode == Opcode::IN;
    let op1 = if is_in {
        destination_string.as_slice()
    } else {
        data_string.as_slice()
    };
    let op2 = if is_in {
        data_string.as_slice()
    } else {
        destination_string.as_slice()
    };
    writer.start_instruction(instruction).write(op1).write_comma_separator().write(op2).end_line();
}

/// `IN` or `OUT` with `dx` as the port operand.
pub open spec fn spec_write_in_out_variable_port(
    view: WriterView,
    inst: Instruction,
) -> WriterView {
    spec_write_in_out(view, inst, ascii(word_register_name(2)))
}

/// Writes the line of the record, as [`spec_write_in_out_variable_port`] says.
pub fn write_in_out_variable_port(writer: &mut Writer, instruction: &Instruction)
    requires
        old(writer)@.accepts(*instruction),
    ensures
        final(writer)@ == spec_write_in_out_variable_port(old(writer)@, *instruction),
        final(writer)@.wf(),
{
    let destination_string = writer.address_to_string(instruction, instruction.get_destination());
    let dx_str = word_register_str(register::DX);
    proof {
        crate::text::lemma_ascii_bytes(dx_str);
    }
    let is_in = instruction.opcode == Opcode::IN;
    let op1 = if is_in {
        destination_string.as_slice()
    } else {
        dx_str.as_bytes()
    };
    let op2 = if is_in {
        dx_str.as_bytes()
    } else {
        destination_string.as_slice()
    };
    writer.start_instruction(instruction).write(op1).write_comma_separator().write(op2).end_line();
}

} // verus!
