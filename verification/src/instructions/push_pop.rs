//! `PUSH` and `POP` of registers, segment registers and memory.
use vstd::prelude::*;
use crate::instructions::common::{
    create_single_byte_instruction,
    get_disp_value,
    get_displacement_amount,
    get_register,
    get_segment_register,
    lemma_byte_fields,
    parse_unknown_instruction,
    spec_create_single_byte_instruction,
    spec_get_disp_value,
    spec_get_displacement_amount,
    spec_unknown_instruction,
    InstRegister,
    InstructionDataFields,
};
use crate::instructions::instruction::Instruction;
use crate::instructions::opcode::Opcode;
use crate::text::ascii;
use crate::writer::{Writer, WriterView};

verus! {

/// `PUSH` if the `reg` field of the ModR/M byte is 110, else `POP`.
pub open spec fn spec_get_push_or_pop_opcode(byte: u8) -> Opcode {
    if (byte / 8) % 8 == 6 {
        Opcode::PUSH
    } else {
        Opcode::POP
    }
}

/// `PUSH` if the `reg` field of the ModR/M byte is 110, else `POP`.
#[verifier::when_used_as_spec(spec_get_push_or_pop_opcode)]
pub fn get_push_or_pop_opcode(byte: u8) -> (opcode: Opcode)
    ensures
        opcode == spec_get_push_or_pop_opcode(byte),
{
    proof {
        lemma_byte_fields(byte);
    }
    let middle_bits = byte >> 3;
    if middle_bits & 0b111 == 0b110 {
        Opcode::PUSH
    } else {
        Opcode::POP
    }
}

/// `PUSH` or `POP` of a register or memory operand: a ModR/M byte with its
/// displacement follows the opcode byte. The flags are left as they are.
pub open spec fn spec_parse_push_pop_register_or_memory(
    bytes: Seq<u8>,
    inst: Instruction,
) -> Instruction {
    if bytes.len() < 2 || bytes.len() < 2 + spec_get_displacement_amount(bytes[1]) {
        spec_unknown_instruction(inst)
    } else {
        let displacement = spec_get_displacement_amount(bytes[1]);
        Instruction {
            opcode: spec_get_push_or_pop_opcode(bytes[1]),
            length: (2 + displacement) as u8,
            register: InstRegister::Reg((bytes[1] / 8) % 8),
            data_fields: InstructionDataFields::spec_parse(bytes[1]),
            disp: spec_get_disp_value(bytes, displacement, 2) as i16,
            ..inst
        }
    }
}

/// Decodes `bytes` into `inst`, as [`spec_parse_push_pop_register_or_memory`] says.
pub fn parse_push_pop_register_or_memory(bytes: &[u8], inst: &mut Instruction)
    ensures
        *final(inst) == spec_parse_push_pop_register_or_memory(bytes@, *old(inst)),
{
    if bytes.len() < 2 {
        parse_unknown_instruction(inst);
        return ;
    }
    let displacement = get_displacement_amount(bytes[1]);
    if bytes.len() < 2 + displacement as usize {
        parse_unknown_instruction(inst);
        return ;
    }
    proof {
        lemma_byte_fields(bytes[1]);
    }
    inst.opcode = get_push_or_pop_opcode(bytes[1]);
    inst.length = 2 + displacement;
    inst.register = get_register(bytes[1] >> 3);
    inst.data_fields = InstructionDataFields::parse(bytes[1]);
    inst.disp = get_disp_value(bytes, displacement, 2);
}

/// `PUSH` or `POP` of the general register that the three lowest bits of
/// the single byte name.
pub open spec fn spec_parse_push_pop_register(
    inst: Instruction,
    opcode: Opcode,
    bytes: Seq<u8>,
) -> Instruction {
    if bytes.len() < 1 {
        spec_unknown_instruction(inst)
    } else {
        spec_create_single_byte_instruction(inst, opcode, InstRegister::Reg(bytes[0] % 8))
    }
}

/// Decodes `bytes` into `inst`, as [`spec_parse_push_pop_register`] says.
pub fn parse_push_pop_register(inst: &mut Instruction, opcode: Opcode, bytes: &[u8])
    ensures
        *final(inst) == spec_parse_push_pop_register(*old(inst), opcode, bytes@),
{
    if bytes.len() < 1 {
        parse_unknown_instruction(inst);
        return ;
    }
    let register = get_register(bytes[0]);
    create_single_byte_instruction(inst, opcode, register);
}

/// `PUSH` or `POP` of the segment register that bits 3 and 4 of the single
/// byte name.
pub open spec fn spec_parse_push_pop_segment_register(
    inst: Instruction,
    opcode: Opcode,
    bytes: Seq<u8>,
) -> Instruction {
    if bytes.len() < 1 {
        spec_unknown_instruction(inst)
    } else {
        spec_create_single_byte_instruction(inst, opcode, InstRegister::SegReg((bytes[0] / 8) % 4))
    }
}

/// Decodes `bytes` into `inst`, as [`spec_parse_push_pop_segment_register`] says.
pub fn parse_push_pop_segment_register(inst: &mut Instruction, opcode: Opcode, bytes: &[u8])
    ensures
        *final(inst) == spec_parse_push_pop_segment_register(*old(inst), opcode, bytes@),
{
    if bytes.len() < 1 {
        parse_unknown_instruction(inst);
        return ;
    }
    proof {
        lemma_byte_fields(bytes[0]);
    }
    let register = get_segment_register(bytes[0] >> 3);
    create_single_byte_instruction(inst, opcode, register);
}

/// `word` and the destination operand.
pub open spec fn spec_write_push_or_pop(view: WriterView, inst: Instruction) -> WriterView {
    view.start_instruction(inst).append(ascii("word "@)).write_operand(
        inst,
        inst.spec_get_destination(),
    ).end_line()
}

/// Writes the line of the record, as [`spec_write_push_or_pop`] says.
pub fn write_push_or_pop(writer: &mut Writer, instruction: &Instruction)
    requires
        old(writer)@.accepts(*instruction),
    ensures
        final(writer)@ == spec_write_push_or_pop(old(writer)@, *instruction),
        final(writer)@.wf(),
{
    proof {
        reveal_strlit("word ");
    }
    writer.start_instruction(instruction).write_str("word ").write_destination(instruction)
        .end_line();
}

} // verus!
