//! The shifts and rotates, and `TEST` with an immediate.
use vstd::prelude::*;
use crate::instructions::common::{
    get_data_value,
    get_disp_value,
    get_displacement_amount,
    get_register,
    lemma_byte_fields,
    parse_instruction_flags,
    parse_unknown_instruction,
    spec_get_data_value,
    spec_get_disp_value,
    spec_get_displacement_amount,
    spec_parse_instruction_flags,
    spec_unknown_instruction,
    spec_write_sized_operand,
    InstRegister,
    InstructionDataFields,
    RM,
};
use crate::instructions::common::instruction_flags::{
    clear_direction,
    has_shift_rotate_flag,
    has_word_flag,
    spec_has_shift_rotate_flag,
    spec_has_word_flag,
    without_direction,
};
use crate::instructions::instruction::Instruction;
use crate::instructions::opcode::Opcode;
use crate::text::{ascii, signed_decimal};
use crate::writer::{signed_data, Writer, WriterView};

verus! {

/// The count of a shift or rotate: `cl` if the flag is set, else `1`.
pub open spec fn shift_count_text(inst: Instruction) -> Seq<u8> {
    if spec_has_shift_rotate_flag(inst.flags) {
        ascii("cl"@)
    } else {
        ascii("1"@)
    }
}

/// A shift or rotate: the operand, qualified by its size if it is in
/// memory, comma, the count.
pub open spec fn spec_write_logic_instruction(view: WriterView, inst: Instruction) -> WriterView {
    spec_write_sized_operand(view.start_instruction(inst), inst, inst.data_fields.rm).append(
        ascii(", "@),
    ).append(shift_count_text(inst)).end_line()
}

/// Writes the line of the record, as [`spec_write_logic_instruction`] says.
pub fn write_logic_instruction(writer: &mut Writer, inst: &Instruction)
    requires
        old(writer)@.accepts(*inst),
    ensures
        final(writer)@ == spec_write_logic_instruction(old(writer)@, *inst),
        final(writer)@.wf(),
{
    proof {
        reveal_strlit("cl");
        reveal_strlit("1");
    }
    writer.start_instruction(inst);
    if let RM::Eff(_) = inst.data_fields.rm {
        writer.write_size(inst);
    }
    let count_str = if has_shift_rotate_flag(inst.flags) {
        "cl"
    } else {
        "1"
    };
    writer.write_rm(inst).write_comma_separator().write_str(count_str).end_line();
}

/// `TEST` of a register or memory operand with an immediate: the direction
/// flag is cleared, and the immediate of the width the opcode byte names
/// follows the displacement.
pub open spec fn spec_parse_test_immediate(bytes: Seq<u8>, inst: Instruction) -> Instruction {
    if bytes.len() < 2 {
        spec_unknown_instruction(inst)
    } else {
        let flags = without_direction(spec_parse_instruction_flags(bytes[0]));
        let word = spec_has_word_flag(flags);
        let displacement = spec_get_displacement_amount(bytes[1]);
        let length = 2 + displacement + (if word {
            2int
        } else {
            1int
        });
        if bytes.len() < length {
            spec_unknown_instruction(inst)
        } else {
            Instruction {
                opcode: Opcode::TEST,
                length: length as u8,
                flags,
                register: InstRegister::Reg((bytes[1] / 8) % 8),
                data_fields: InstructionDataFields::spec_parse(bytes[1]),
                disp: spec_get_disp_value(bytes, displacement, 2) as i16,
                data: spec_get_data_value(bytes, word, 2 + displacement) as u16,
                ..inst
            }
        }
    }
}

/// Decodes `bytes` into `inst`, as [`spec_parse_test_immediate`] says.
pub fn parse_test_immediate(bytes: &[u8], inst: &mut Instruction)
    ensures
        *final(inst) == spec_parse_test_immediate(bytes@, *old(inst)),
{
    if bytes.len() < 2 {
        parse_unknown_instruction(inst);
        return ;
    }
    let flags = clear_direction(parse_instruction_flags(bytes[0]));
    let displacement = get_displacement_amount(bytes[1]);
    let word = has_word_flag(flags);
    let immediate_length: u8 = if word {
        2
    } else {
        1
    };
    let length: u8 = 2 + displacement + immediate_length;
    if bytes.len() < length as usize {
        parse_unknown_instruction(inst);
        return ;
    }
    proof {
        lemma_byte_fields(bytes[1]);
    }
    inst.opcode = Opcode::TEST;
    inst.length = length;
    inst.flags = flags;
    inst.register = get_register(bytes[1] >> 3);
    inst.data_fields = InstructionDataFields::parse(bytes[1]);
    inst.disp = get_disp_value(bytes, displacement, 2);
    inst.data = get_data_value(bytes, word, 2 + displacement as usize);
}

/// `TEST` with an immediate: the destination, qualified by its size if the
/// operand is in memory, comma, the immediate as a signed decimal number.
pub open spec fn spec_write_test_immediate(view: WriterView, inst: Instruction) -> WriterView {
    let started = view.start_instruction(inst);
    let sized = match inst.data_fields.rm {
        RM::Eff(_) => started.append(crate::writer::size_text(inst)),
        RM::Reg(_) => started,
    };
    sized.write_operand(inst, inst.spec_get_destination()).append(ascii(", "@)).append(
        signed_decimal(signed_data(inst)),
    ).end_line()
}

/// Writes the line of the record, as [`spec_write_test_immediate`] says.
pub fn write_test_immediate(writer: &mut Writer, instruction: &Instruction)
    requires
        old(writer)@.accepts(*instruction),
    ensures
        final(writer)@ == spec_write_test_immediate(old(writer)@, *instruction),
        final(writer)@.wf(),
{
    writer.start_instruction(instruction);
    if let RM::Eff(_) = instruction.data_fields.rm {
        writer.write_size(instruction);
    }
    writer.write_destination(instruction).write_comma_separator().write_signed_data(instruction)
        .end_line();
}

} // verus!
