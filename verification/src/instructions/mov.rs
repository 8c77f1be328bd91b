//! The five encodings of `MOV`.
use vstd::prelude::*;
use crate::instructions::common::{
    get_data_value,
    get_disp_value,
    get_displacement_amount,
    get_register,
    get_segment_register,
    lemma_byte_fields,
    parse_instruction_flags,
    parse_typical_instruction,
    parse_unknown_instruction,
    spec_get_data_value,
    spec_get_disp_value,
    spec_get_displacement_amount,
    spec_parse_instruction_flags,
    spec_parse_typical_instruction,
    spec_unknown_instruction,
    spec_write_sized_operand,
    InstRegister,
    InstructionDataFields,
    RM,
};
use crate::instructions::common::instruction_flags::{
    has_word_flag,
    invert_direction,
    set_word,
    spec_has_direction_flag,
    spec_has_word_flag,
    with_direction_inverted,
    with_word,
};
use crate::instructions::common::register;
use crate::instructions::instruction::Instruction;
use crate::instructions::opcode::Opcode;
use crate::text::ascii;
use crate::writer::{immediate_text, Writer, WriterView};

verus! {

/// Register or memory operand, qualified by its size if it is in memory,
/// comma, the immediate in hexadecimal.
pub open spec fn spec_write_mov_immediate_to_memory(
    view: WriterView,
    inst: Instruction,
) -> WriterView {
    spec_write_sized_operand(view.start_instruction(inst), inst, inst.data_fields.rm).append(
        ascii(", "@),
    ).append(immediate_text(inst.data, inst)).end_line()
}

/// Writes the line of the record, as [`spec_write_mov_immediate_to_memory`] says.
pub fn write_mov_immediate_to_memory(writer: &mut Writer, instruction: &Instruction)
    requires
        old(writer)@.accepts(*instruction),
    ensures
        final(writer)@ == spec_write_mov_immediate_to_memory(old(writer)@, *instruction),
        final(writer)@.wf(),
{
    writer.start_instruction(instruction);
    if let RM::Eff(_) = instruction.data_fields.rm {
        writer.write_size(instruction);
    }
    writer.write_rm(instruction).write_comma_separator().write_with_w_flag(
        instruction.data,
        instruction,
    ).end_line();
}

/// `MOV` of an immediate to a register or memory operand: behind the
/// displacement stands an immediate of the width the opcode byte names. The
/// `reg` field is not looked at.
pub open spec fn spec_parse_mov_immediate_to_memory(
    bytes: Seq<u8>,
    inst: Instruction,
) -> Instruction {
    if bytes.len() < 2 {
        spec_unknown_instruction(inst)
    } else {
        let flags = spec_parse_instruction_flags(bytes[0]);
        let word = spec_has_word_flag(flags);
        let displacement = spec_get_displacement_amount(bytes[1]);
        let length = 2 + displacement + (if word {
            2int
        } else {
            1int
        });
        if bytes.len() < length {
            spec_unknown_instruction(inst)
        } else {
            Instruction {
                opcode: Opcode::MOV,
                length: length as u8,
                flags,
                register: InstRegister::Reg((bytes[1] / 8) % 8),
                data_fields: InstructionDataFields::spec_parse(bytes[1]),
                disp: spec_get_disp_value(bytes, displacement, 2) as i16,
                data: spec_get_data_value(bytes, word, 2 + displacement) as u16,
                ..inst
            }
        }
    }
}

/// Decodes `bytes` into `inst`, as [`spec_parse_mov_immediate_to_memory`] says.
pub fn parse_mov_immediate_to_memory(bytes: &[u8], inst: &mut Instruction)
    ensures
        *final(inst) == spec_parse_mov_immediate_to_memory(bytes@, *old(inst)),
{
    if bytes.len() < 2 {
        parse_unknown_instruction(inst);
        return ;
    }
    let flags = parse_instruction_flags(bytes[0]);
    let displacement = get_displacement_amount(bytes[1]);
    let word = has_word_flag(flags);
    let immediate_length: u8 = if word {
        2
    } else {
        1
    };
    let length: u8 = 2 + displacement + immediate_length;
    if bytes.len() < length as usize {
        parse_unknown_instruction(inst);
        return ;
    }
    proof {
        lemma_byte_fields(bytes[1]);
    }
    inst.opcode = Opcode::MOV;
    inst.length = length;
    inst.flags = flags;
    inst.register = get_register(bytes[1] >> 3);
    inst.data_fields = InstructionDataFields::parse(bytes[1]);
    inst.disp = get_disp_value(bytes, displacement, 2);
    inst.data = get_data_value(bytes, word, 2 + displacement as usize);
}

/// `MOV` of an immediate to a register: bit 3 of the opcode byte gives the
/// width, its three lowest bits the register, which is the destination.
pub open spec fn spec_parse_mov_immediate_to_register(
    bytes: Seq<u8>,
    inst: Instruction,
) -> Instruction {
    if bytes.len() < 1 {
        spec_unknown_instruction(inst)
    } else {
        let flags = spec_parse_instruction_flags(bytes[0] / 8);
        let word = spec_has_word_flag(flags);
        let length = if word {
            3int
        } else {
            2int
        };
        if bytes.len() < length {
            spec_unknown_instruction(inst)
        } else {
            Instruction {
                opcode: Opcode::MOV,
                length: length as u8,
                flags,
                register: InstRegister::Reg(bytes[0] % 8),
                data: spec_get_data_value(bytes, word, 1) as u16,
                ..inst
            }
        }
    }
}

/// Decodes `bytes` into `inst`, as [`spec_parse_mov_immediate_to_register`] says.
pub fn parse_mov_immediate_to_register(bytes: &[u8], inst: &mut Instruction)
    ensures
        *final(inst) == spec_parse_mov_immediate_to_register(bytes@, *old(inst)),
{
    if bytes.len() < 1 {
        parse_unknown_instruction(inst);
        return ;
    }
    proof {
        lemma_byte_fields(bytes[0]);
    }
    let flags: u8 = parse_instruction_flags(bytes[0] >> 3);
    let word = has_word_flag(flags);
    let length: u8 = if word {
        3
    } else {
        2
    };
    if bytes.len() < length as usize {
        parse_unknown_instruction(inst);
        return ;
    }
    inst.opcode = Opcode::MOV;
    inst.length = length;
    inst.flags = flags;
    inst.register = get_register(bytes[0]);
    inst.data = get_data_value(bytes, word, 1);
}

/// `MOV` between the accumulator and a direct address: the direction flag
/// is the inverse of bit 1 of the opcode byte, so that the accumulator,
/// held as the register, is the destination when memory is read.
pub open spec fn spec_parse_mov_memory_to_accumulator(
    bytes: Seq<u8>,
    inst: Instruction,
) -> Instruction {
    if bytes.len() < 3 {
        spec_unknown_instruction(inst)
    } else {
        Instruction {
            opcode: Opcode::MOV,
            length: 3,
            flags: with_direction_inverted(spec_parse_instruction_flags(bytes[0])),
            register: InstRegister::Reg(0),
            data_fields: InstructionDataFields::spec_direct_address(),
            disp: spec_get_disp_value(bytes, 2, 1) as i16,
            ..inst
        }
    }
}

/// Decodes `bytes` into `inst`, as [`spec_parse_mov_memory_to_accumulator`] says.
pub fn parse_mov_memory_to_accumulator(bytes: &[u8], inst: &mut Instruction)
    ensures
        *final(inst) == spec_parse_mov_memory_to_accumulator(bytes@, *old(inst)),
{
    if bytes.len() < 3 {
        parse_unknown_instruction(inst);
        return ;
    }
    let flags = invert_direction(parse_instruction_flags(bytes[0]));
    inst.opcode = Opcode::MOV;
    inst.length = 3;
    inst.flags = flags;
    inst.register = InstRegister::Reg(register::AX);
    inst.data_fields = InstructionDataFields::direct_address();
    inst.disp = get_disp_value(bytes, 2, 1);
}

/// `MOV` to or from a segment register: as the typical encoding, but the
/// `reg` field names a segment register and the width is a word.
pub open spec fn spec_parse_mov_to_segment_register(
    bytes: Seq<u8>,
    inst: Instruction,
) -> Instruction {
    let typical = spec_parse_typical_instruction(inst, Opcode::MOV, bytes);
    if typical.length == 0 {
        typical
    } else {
        Instruction {
            register: InstRegister::SegReg((bytes[1] / 8) % 4),
            flags: with_word(typical.flags),
            ..typical
        }
    }
}

/// Decodes `bytes` into `inst`, as [`spec_parse_mov_to_segment_register`] says.
pub fn parse_mov_to_segment_register(bytes: &[u8], inst: &mut Instruction)
    ensures
        *final(inst) == spec_parse_mov_to_segment_register(bytes@, *old(inst)),
{
    parse_typical_instruction(inst, Opcode::MOV, bytes);
    if inst.length == 0 {
        return ;
    }
    proof {
        lemma_byte_fields(bytes[1]);
    }
    inst.register = get_segment_register(bytes[1] >> 3);
    inst.flags = set_word(inst.flags);
}

/// The direction flag of a `MOV` between accumulator and memory is the
/// inverse of bit 1 of the opcode byte: the accumulator is the destination
/// when that bit is clear, and the source when it is set.
pub proof fn lemma_accumulator_direction(bytes: Seq<u8>, inst: Instruction)
    requires
        bytes.len() >= 3,
    ensures
        ({
            let parsed = spec_parse_mov_memory_to_accumulator(bytes, inst);
            &&& spec_has_direction_flag(parsed.flags) == ((bytes[0] / 2) % 2 == 0)
            &&& (bytes[0] / 2) % 2 == 0 ==> parsed.spec_get_destination() == RM::Reg(
                InstRegister::Reg(0),
            )
            &&& (bytes[0] / 2) % 2 == 1 ==> parsed.spec_get_source() == RM::Reg(
                InstRegister::Reg(0),
            )
        }),
{
}

} // verus!
