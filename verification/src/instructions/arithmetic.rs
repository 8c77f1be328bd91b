//! The arithmetic instructions: the immediate forms of the eight
//! two-operand instructions, the immediate forms on the accumulator, `INC`
//! and `DEC` of a word register, and the ASCII adjustments.
use vstd::prelude::*;
use crate::instructions::common::{
    get_data_value,
    get_disp_value,
    get_displacement_amount,
    get_register,
    lemma_byte_fields,
    parse_instruction_flags,
    parse_unknown_instruction,
    sign_extend_byte,
    spec_get_data_value,
    spec_get_disp_value,
    spec_get_displacement_amount,
    spec_parse_instruction_flags,
    spec_unknown_instruction,
    spec_write_sized_operand,
    InstRegister,
    InstructionDataFields,
    RM,
};
use crate::instructions::common::instruction_flags::{
    has_sign_flag,
    has_word_flag,
    spec_has_sign_flag,
    spec_has_word_flag,
};
use crate::instructions::common::instruction_flags;
use crate::instructions::common::register;
use crate::instructions::instruction::Instruction;
use crate::instructions::opcode::Opcode;
use crate::text::ascii;
use crate::writer::{immediate_text, Writer, WriterView};

verus! {

/// The instruction that the `reg` field selects among the eight that take
/// an immediate for a register or memory operand.
pub open spec fn spec_arithmetic_opcode(index: u8) -> Opcode {
    if index == 0 {
        Opcode::ADD
    } else if index == 1 {
        Opcode::OR
    } else if index == 2 {
        Opcode::ADC
    } else if index == 3 {
        Opcode::SBB
    } else if index == 4 {
        Opcode::AND
    } else if index == 5 {
        Opcode::SUB
    } else if index == 6 {
        Opcode::XOR
    } else {
        Opcode::CMP
    }
}

/// The arithmetic instruction that the `reg` field `index` selects.
#[verifier::when_used_as_spec(spec_arithmetic_opcode)]
pub fn arithmetic_opcode(index: u8) -> (opcode: Opcode)
    ensures
        opcode == spec_arithmetic_opcode(index),
{
    match index {
        0 => Opcode::ADD,
        1 => Opcode::OR,
        2 => Opcode::ADC,
        3 => Opcode::SBB,
        4 => Opcode::AND,
        5 => Opcode::SUB,
        6 => Opcode::XOR,
        _ => Opcode::CMP,
    }
}

/// The immediate of an instruction whose opcode byte has the flags `flags`:
/// a word if the word flag is set and the sign flag is not; otherwise a
/// byte, which is sign-extended to a word if both flags are set.
pub open spec fn spec_arithmetic_immediate(bytes: Seq<u8>, flags: u8, offset: int) -> int {
    if spec_has_word_flag(flags) && !spec_has_sign_flag(flags) {
        spec_get_data_value(bytes, true, offset)
    } else if spec_has_word_flag(flags) {
        let extended = sign_extend_byte(bytes[offset]);
        if extended < 0 {
            extended + 65536
        } else {
            extended
        }
    } else {
        bytes[offset] as int
    }
}

/// One of the eight arithmetic instructions with an immediate for a register
/// or memory operand: the `reg` field selects the instruction, and the
/// immediate follows the displacement.
pub open spec fn spec_parse_arithmetic_imm_to_register_memory(
    bytes: Seq<u8>,
    inst: Instruction,
) -> Instruction {
    if bytes.len() < 2 {
        spec_unknown_instruction(inst)
    } else {
        let flags = spec_parse_instruction_flags(bytes[0]);
        let wide = spec_has_word_flag(flags) && !spec_has_sign_flag(flags);
        let displacement = spec_get_displacement_amount(bytes[1]);
        let length = 2 + displacement + (if wide {
            2int
        } else {
            1int
        });
        if bytes.len() < length {
            spec_unknown_instruction(inst)
        } else {
            Instruction {
                opcode: spec_arithmetic_opcode((bytes[1] / 8) % 8),
                length: length as u8,
                flags,
                register: InstRegister::Reg((bytes[1] / 8) % 8),
                data_fields: InstructionDataFields::spec_parse(bytes[1]),
                disp: spec_get_disp_value(bytes, displacement, 2) as i16,
                data: spec_arithmetic_immediate(bytes, flags, 2 + displacement) as u16,
                ..inst
            }
        }
    }
}

/// Decodes `bytes` into `inst`, as [`spec_parse_arithmetic_imm_to_register_memory`] says.
pub fn parse_arithmetic_imm_to_register_memory(bytes: &[u8], inst: &mut Instruction)
    ensures
        *final(inst) == spec_parse_arithmetic_imm_to_register_memory(bytes@, *old(inst)),
{
    if bytes.len() < 2 {
        parse_unknown_instruction(inst);
        return ;
    }
    let flags = parse_instruction_flags(bytes[0]);
    let displacement = get_displacement_amount(bytes[1]);
    let word = has_word_flag(flags);
    let has_u16_immediate = word && !has_sign_flag(flags);
    let immediate_length: u8 = if has_u16_immediate {
        2
    } else {
        1
    };
    let length: u8 = 2 + displacement + immediate_length;
    if bytes.len() < length as usize {
        parse_unknown_instruction(inst);
        return ;
    }
    proof {
        lemma_byte_fields(bytes[1]);
    }
    let offset: usize = 2 + displacement as usize;
    let data: u16 = if word && !has_u16_immediate && bytes[offset] >= 128 {
        0xff00 + bytes[offset] as u16
    } else {
        get_data_value(bytes, has_u16_immediate, offset)
    };
    let register = get_register(bytes[1] >> 3);
    inst.opcode = arithmetic_opcode(u8::from(register));
    inst.length = length;
    inst.flags = flags;
    inst.register = register;
    inst.data_fields = InstructionDataFields::parse(bytes[1]);
    inst.disp = get_disp_value(bytes, displacement, 2);
    inst.data = data;
}

/// Register or memory operand, qualified by its size if it is in memory,
/// comma, the immediate in hexadecimal.
pub open spec fn spec_write_arithmetic_imm_to_register_memory(
    view: WriterView,
    inst: Instruction,
) -> WriterView {
    spec_write_sized_operand(view.start_instruction(inst), inst, inst.data_fields.rm).append(
        ascii(", "@),
    ).append(immediate_text(inst.data, inst)).end_line()
}

/// Writes the line of the record, as [`spec_write_arithmetic_imm_to_register_memory`] says.
pub fn write_arithmetic_imm_to_register_memory(writer: &mut Writer, instruction: &Instruction)
    requires
        old(writer)@.accepts(*instruction),
    ensures
        final(writer)@ == spec_write_arithmetic_imm_to_register_memory(old(writer)@, *instruction),
        final(writer)@.wf(),
{
    writer.start_instruction(instruction);
    if let RM::Eff(_) = instruction.data_fields.rm {
        writer.write_size(instruction);
    }
    writer.write_rm(instruction).write_comma_separator().write_with_w_flag(
        instruction.data,
        instruction,
    ).end_line();
}

/// An instruction with an immediate for the accumulator: the immediate of
/// the width the opcode byte names follows that byte.
pub open spec fn spec_parse_immediate_to_accumulator(
    inst: Instruction,
    opcode: Opcode,
    bytes: Seq<u8>,
) -> Instruction {
    if bytes.len() < 1 {
        spec_unknown_instruction(inst)
    } else {
        let flags = spec_parse_instruction_flags(bytes[0]);
        let word = spec_has_word_flag(flags);
        let length = if word {
            3int
        } else {
            2int
        };
        if bytes.len() < length {
            spec_unknown_instruction(inst)
        } else {
            Instruction {
                opcode,
                length: length as u8,
                flags,
                register: InstRegister::Reg(0),
                data: spec_get_data_value(bytes, word, 1) as u16,
                ..inst
            }
        }
    }
}

/// Decodes `bytes` into `inst`, as [`spec_parse_immediate_to_accumulator`] says.
pub fn parse_immediate_to_accumulator(inst: &mut Instruction, opcode: Opcode, bytes: &[u8])
    ensures
        *final(inst) == spec_parse_immediate_to_accumulator(*old(inst), opcode, bytes@),
{
    if bytes.len() < 1 {
        parse_unknown_instruction(inst);
        return ;
    }
    let flags = parse_instruction_flags(bytes[0]);
    let word = has_word_flag(flags);
    let length: u8 = if word {
        3
    } else {
        2
    };
    if bytes.len() < length as usize {
        parse_unknown_instruction(inst);
        return ;
    }
    inst.opcode = opcode;
    inst.length = length;
    inst.flags = flags;
    inst.register = InstRegister::Reg(register::AX);
    inst.data = get_data_value(bytes, word, 1);
}

/// `INC` or `DEC` of a word register, which the three lowest bits of the
/// single byte name.
pub open spec fn spec_parse_word_register(
    inst: Instruction,
    opcode: Opcode,
    bytes: Seq<u8>,
) -> Instruction {
    if bytes.len() < 1 {
        spec_unknown_instruction(inst)
    } else {
        Instruction {
            opcode,
            length: 1,
            flags: instruction_flags::WORD,
            register: InstRegister::Reg(bytes[0] % 8),
            ..inst
        }
    }
}

/// Decodes `bytes` into `inst`, as [`spec_parse_word_register`] says.
pub fn parse_word_register(inst: &mut Instruction, opcode: Opcode, bytes: &[u8])
    ensures
        *final(inst) == spec_parse_word_register(*old(inst), opcode, bytes@),
{
    if bytes.len() < 1 {
        parse_unknown_instruction(inst);
        return ;
    }
    inst.opcode = opcode;
    inst.length = 1;
    inst.flags = instruction_flags::WORD;
    inst.register = get_register(bytes[0]);
}

/// `AAM` or `AAD`: the opcode byte must be followed by the byte `0x0A`;
/// with any other second byte the bytes are no instruction.
pub open spec fn spec_parse_ascii_adjust(
    inst: Instruction,
    opcode: Opcode,
    bytes: Seq<u8>,
) -> Instruction {
    if bytes.len() < 2 || bytes[1] != 0x0A {
        spec_unknown_instruction(inst)
    } else {
        Instruction { opcode, length: 2, ..inst }
    }
}

/// Decodes `bytes` into `inst`, as [`spec_parse_ascii_adjust`] says.
pub fn parse_ascii_adjust(inst: &mut Instruction, opcode: Opcode, bytes: &[u8])
    ensures
        *final(inst) == spec_parse_ascii_adjust(*old(inst), opcode, bytes@),
{
    if bytes.len() < 2 || bytes[1] != 0x0A {
        parse_unknown_instruction(inst);
        return ;
    }
    inst.opcode = opcode;
    inst.length = 2;
}

/// The register of the instruction alone, named in word form.
pub open spec fn spec_write_only_register_instruction(
    view: WriterView,
    inst: Instruction,
) -> WriterView {
    view.start_instruction(inst).append(ascii(inst.register.name())).end_line()
}

/// Writes the line of the record, as [`spec_write_only_register_instruction`] says.
pub fn write_only_register_instruction(writer: &mut Writer, inst: &Instruction)
    requires
        old(writer)@.accepts(*inst),
    ensures
        final(writer)@ == spec_write_only_register_instruction(old(writer)@, *inst),
        final(writer)@.wf(),
{
    writer.start_instruction(inst).write_str(inst.register.to_str()).end_line();
}

/// With the sign flag and the word flag both set, the immediate is a single
/// byte, sign-extended to the word that the record holds, and the record
/// is that of a word instruction.
pub proof fn lemma_sign_extended_immediate(bytes: Seq<u8>, inst: Instruction)
    requires
        bytes.len() >= 2,
        bytes[0] % 4 == 3,
        bytes.len() >= 3 + spec_get_displacement_amount(bytes[1]),
    ensures
        ({
            let parsed = spec_parse_arithmetic_imm_to_register_memory(bytes, inst);
            let immediate = bytes[2 + spec_get_displacement_amount(bytes[1])];
            &&& parsed.length == 3 + spec_get_displacement_amount(bytes[1])
            &&& spec_has_word_flag(parsed.flags)
            &&& parsed.data == (if immediate < 128 {
                immediate as int
            } else {
                0xff00 + immediate
            })
        }),
{
}

} // verus!
