//! Calls, jumps, returns and interrupts.
use vstd::prelude::*;
use crate::instructions::common::{
    get_data_value,
    get_disp_value,
    lemma_byte_fields,
    parse_bare_instruction,
    parse_typical_instruction,
    parse_unknown_instruction,
    spec_get_data_value,
    spec_get_disp_value,
    spec_parse_bare_instruction,
    spec_parse_typical_instruction,
    spec_unknown_instruction,
    word_at,
};
use crate::instructions::instruction::Instruction;
use crate::instructions::opcode::Opcode;
use crate::text::{ascii, decimal, push_decimal};
use crate::writer::{Writer, WriterView};

verus! {

/// The conditional jump or loop instruction that a first byte stands for.
pub open spec fn spec_conditional_jump_opcode(byte: u8) -> Option<Opcode> {
    if byte == 0x70 {
        Some(Opcode::JO)
    } else if byte == 0x71 {
        Some(Opcode::JNO)
    } else if byte == 0x72 {
        Some(Opcode::JB)
    } else if byte == 0x73 {
        Some(Opcode::JAE)
    } else if byte == 0x74 {
        Some(Opcode::JE)
    } else if byte == 0x75 {
        Some(Opcode::JNE)
    } else if byte == 0x76 {
        Some(Opcode::JBE)
    } else if byte == 0x77 {
        Some(Opcode::JA)
    } else if byte == 0x78 {
        Some(Opcode::JS)
    } else if byte == 0x79 {
        Some(Opcode::JNS)
    } else if byte == 0x7A {
        Some(Opcode::JP)
    } else if byte == 0x7B {
        Some(Opcode::JNP)
    } else if byte == 0x7C {
        Some(Opcode::JL)
    } else if byte == 0x7D {
        Some(Opcode::JGE)
    } else if byte == 0x7E {
        Some(Opcode::JLE)
    } else if byte == 0x7F {
        Some(Opcode::JG)
    } else if byte == 0xE0 {
        Some(Opcode::LOOPNZ)
    } else if byte == 0xE1 {
        Some(Opcode::LOOPZ)
    } else if byte == 0xE2 {
        Some(Opcode::LOOP)
    } else if byte == 0xE3 {
        Some(Opcode::JCXZ)
    } else {
        None
    }
}

/// The conditional jump or loop that the first byte `byte` stands for.
#[verifier::when_used_as_spec(spec_conditional_jump_opcode)]
pub fn conditional_jump_opcode(byte: u8) -> (opcode: Option<Opcode>)
    ensures
        opcode == spec_conditional_jump_opcode(byte),
{
    match byte {
        0b01110100 => Some(Opcode::JE),
        0b01111100 => Some(Opcode::JL),
        0b01111110 => Some(Opcode::JLE),
        0b01110010 => Some(Opcode::JB),
        0b01110110 => Some(Opcode::JBE),
        0b01111010 => Some(Opcode::JP),
        0b01110000 => Some(Opcode::JO),
        0b01111000 => Some(Opcode::JS),
        0b01110101 => Some(Opcode::JNE),
        0b01111101 => Some(Opcode::JGE),
        0b01111111 => Some(Opcode::JG),
        0b01110011 => Some(Opcode::JAE),
        0b01110111 => Some(Opcode::JA),
        0b01111011 => Some(Opcode::JNP),
        0b01110001 => Some(Opcode::JNO),
        0b01111001 => Some(Opcode::JNS),
        0b11100010 => Some(Opcode::LOOP),
        0b11100001 => Some(Opcode::LOOPZ),
        0b11100000 => Some(Opcode::LOOPNZ),
        0b11100011 => Some(Opcode::JCXZ),
        _ => None,
    }
}

/// A conditional jump or loop: the byte behind the opcode byte is the
/// signed displacement from the end of the instruction.
pub open spec fn spec_parse_conditional_jump(bytes: Seq<u8>, inst: Instruction) -> Instruction {
    if bytes.len() < 2 {
        spec_unknown_instruction(inst)
    } else {
        match spec_conditional_jump_opcode(bytes[0]) {
            Some(opcode) => Instruction {
                opcode,
                length: 2,
                disp: spec_get_disp_value(bytes, 1, 1) as i16,
                ..inst
            },
            None => spec_unknown_instruction(inst),
        }
    }
}

/// Decodes `bytes` into `inst`, as [`spec_parse_conditional_jump`] says.
pub fn parse_conditional_jump(bytes: &[u8], inst: &mut Instruction)
    ensures
        *final(inst) == spec_parse_conditional_jump(bytes@, *old(inst)),
{
    if bytes.len() < 2 {
        parse_unknown_instruction(inst);
        return ;
    }
    match conditional_jump_opcode(bytes[0]) {
        Some(opcode) => {
            inst.opcode = opcode;
            inst.length = 2;
            inst.disp = get_disp_value(bytes, 1, 1);
        },
        None => {
            parse_unknown_instruction(inst);
        },
    }
}

/// The line of a jump or call to a relative target: the mnemonic and the
/// label of the target.
pub open spec fn spec_write_jump(view: WriterView, inst: Instruction) -> WriterView {
    view.start_instruction(inst).write_jump_displacement(inst.disp).end_line()
}

/// Writes the line of the record, as [`spec_write_jump`] says.
pub fn write_conditional_jump(writer: &mut Writer, instruction: &Instruction)
    requires
        old(writer)@.accepts_jump(*instruction),
    ensures
        final(writer)@ == spec_write_jump(old(writer)@, *instruction),
        final(writer)@.wf(),
{
    writer.start_instruction(instruction).write_jump_displacement(instruction.disp).end_line();
}

/// `JMP` if the lowest bit of `selector` is set, else `CALL`.
pub open spec fn call_or_jmp(selector: int) -> Opcode {
    if selector % 2 == 1 {
        Opcode::JMP
    } else {
        Opcode::CALL
    }
}

/// A call or jump within the segment to a relative target: `CALL` for an
/// even opcode byte and `JMP` for an odd one, with a signed displacement of
/// 16 bits from the end of the instruction.
pub open spec fn spec_parse_direct_within_segment(
    bytes: Seq<u8>,
    inst: Instruction,
) -> Instruction {
    if bytes.len() < 3 {
        spec_unknown_instruction(inst)
    } else {
        Instruction {
            opcode: call_or_jmp(bytes[0] as int),
            length: 3,
            disp: spec_get_disp_value(bytes, 2, 1) as i16,
            ..inst
        }
    }
}

/// Decodes `bytes` into `inst`, as [`spec_parse_direct_within_segment`] says.
pub fn parse_direct_within_segment(bytes: &[u8], inst: &mut Instruction)
    ensures
        *final(inst) == spec_parse_direct_within_segment(bytes@, *old(inst)),
{
    if bytes.len() < 3 {
        parse_unknown_instruction(inst);
        return ;
    }
    proof {
        lemma_byte_fields(bytes[0]);
    }
    inst.length = 3;
    inst.disp = get_disp_value(bytes, 2, 1);
    inst.opcode = if bytes[0] & 0b1 == 1 {
        Opcode::JMP
    } else {
        Opcode::CALL
    };
}

/// Writes the line of the record, as [`spec_write_jump`] says.
pub fn write_direct_within_segment(writer: &mut Writer, instruction: &Instruction)
    requires
        old(writer)@.accepts_jump(*instruction),
    ensures
        final(writer)@ == spec_write_jump(old(writer)@, *instruction),
        final(writer)@.wf(),
{
    writer.start_instruction(instruction).write_jump_displacement(instruction.disp).end_line();
}

/// The short `JMP`: a signed displacement of 8 bits from the end of the
/// instruction.
pub open spec fn spec_parse_jump_short(bytes: Seq<u8>, inst: Instruction) -> Instruction {
    if bytes.len() < 2 {
        spec_unknown_instruction(inst)
    } else {
        Instruction {
            opcode: Opcode::JMP,
            length: 2,
            disp: spec_get_disp_value(bytes, 1, 1) as i16,
            ..inst
        }
    }
}

/// Decodes `bytes` into `inst`, as [`spec_parse_jump_short`] says.
pub fn parse_jump_short(bytes: &[u8], inst: &mut Instruction)
    ensures
        *final(inst) == spec_parse_jump_short(bytes@, *old(inst)),
{
    if bytes.len() < 2 {
        parse_unknown_instruction(inst);
        return ;
    }
    inst.length = 2;
    inst.disp = get_disp_value(bytes, 1, 1);
    inst.opcode = Opcode::JMP;
}

/// A call or jump through a register or memory operand: the typical
/// encoding, with `JMP` if bit 5 of the ModR/M byte is set, else `CALL`.
pub open spec fn spec_parse_indirect(bytes: Seq<u8>, inst: Instruction) -> Instruction {
    if bytes.len() < 2 {
        spec_unknown_instruction(inst)
    } else {
        spec_parse_typical_instruction(inst, call_or_jmp(bytes[1] as int / 32), bytes)
    }
}

/// Decodes `bytes` into `inst`, as [`spec_parse_indirect`] says.
pub fn parse_indirect(bytes: &[u8], inst: &mut Instruction)
    ensures
        *final(inst) == spec_parse_indirect(bytes@, *old(inst)),
{
    if bytes.len() < 2 {
        parse_unknown_instruction(inst);
        return ;
    }
    proof {
        lemma_byte_fields(bytes[1]);
    }
    let sixth_bit_set = ((bytes[1] >> 5) & 0b1) == 0b1;
    let opcode = if sixth_bit_set {
        Opcode::JMP
    } else {
        Opcode::CALL
    };
    parse_typical_instruction(inst, opcode, bytes);
}

/// The register or memory operand that holds the target.
pub open spec fn spec_write_indirect_within_segment(
    view: WriterView,
    inst: Instruction,
) -> WriterView {
    view.start_instruction(inst).write_operand(inst, inst.data_fields.rm).end_line()
}

/// Writes the line of the record, as [`spec_write_indirect_within_segment`] says.
pub fn write_indirect_within_segment(writer: &mut Writer, inst: &Instruction)
    requires
        old(writer)@.accepts(*inst),
    ensures
        final(writer)@ == spec_write_indirect_within_segment(old(writer)@, *inst),
        final(writer)@.wf(),
{
    writer.start_instruction(inst).write_rm(inst).end_line();
}

/// `far` and the operand that holds the target.
pub open spec fn spec_write_indirect_intersegment(
    view: WriterView,
    inst: Instruction,
) -> WriterView {
    view.start_instruction(inst).append(ascii("far "@)).write_operand(
        inst,
        inst.data_fields.rm,
    ).end_line()
}

/// Writes the line of the record, as [`spec_write_indirect_intersegment`] says.
pub fn write_indirect_intersegment(writer: &mut Writer, inst: &Instruction)
    requires
        old(writer)@.accepts(*inst),
    ensures
        final(writer)@ == spec_write_indirect_intersegment(old(writer)@, *inst),
        final(writer)@.wf(),
{
    proof {
        reveal_strlit("far ");
    }
    writer.start_instruction(inst).write_str("far ").write_rm(inst).end_line();
}

/// A call or jump to a target in another segment: five bytes, `JMP` if the
/// three highest bits of the opcode byte are set, else `CALL`. Offset and
/// segment are read from the retained bytes when the record is rendered.
pub open spec fn spec_parse_direct_intersegment(bytes: Seq<u8>, inst: Instruction) -> Instruction {
    if bytes.len() < 5 {
        spec_unknown_instruction(inst)
    } else {
        Instruction {
            opcode: if bytes[0] / 32 == 7 {
                Opcode::JMP
            } else {
                Opcode::CALL
            },
            length: 5,
            ..inst
        }
    }
}

/// Decodes `bytes` into `inst`, as [`spec_parse_direct_intersegment`] says.
pub fn parse_direct_intersegment(bytes: &[u8], inst: &mut Instruction)
    ensures
        *final(inst) == spec_parse_direct_intersegment(bytes@, *old(inst)),
{
    if bytes.len() < 5 {
        parse_unknown_instruction(inst);
        return ;
    }
    proof {
        lemma_byte_fields(bytes[0]);
    }
    let three_high_bits_set = (bytes[0] >> 5) == 0b111;
    inst.opcode = if three_high_bits_set {
        Opcode::JMP
    } else {
        Opcode::CALL
    };
    inst.length = 5;
}

/// The far target in decimal: the segment, a colon, the offset.
pub open spec fn spec_write_direct_intersegment(view: WriterView, inst: Instruction) -> WriterView {
    view.start_instruction(inst).append(decimal(word_at(inst.input@, 3) as nat)).append(
        ascii(":"@),
    ).append(decimal(word_at(inst.input@, 1) as nat)).end_line()
}

/// Writes the line of the record, as [`spec_write_direct_intersegment`] says.
pub fn write_direct_intersegment(writer: &mut Writer, instruction: &Instruction)
    requires
        old(writer)@.accepts(*instruction),
    ensures
        final(writer)@ == spec_write_direct_intersegment(old(writer)@, *instruction),
        final(writer)@.wf(),
{
    let ip: u16 = get_data_value(&instruction.input, true, 1);
    let cs: u16 = get_data_value(&instruction.input, true, 3);
    let mut cs_text: Vec<u8> = Vec::new();
    push_decimal(&mut cs_text, cs as usize);
    let mut ip_text: Vec<u8> = Vec::new();
    push_decimal(&mut ip_text, ip as usize);
    writer.start_instruction(instruction).write(cs_text.as_slice()).write_byte(58).write(
        ip_text.as_slice(),
    ).end_line();
    proof {
        reveal_strlit(":");
        assert(ascii(":"@) =~= seq![58u8]);
    }
}

/// `RETF` if bit 3 of the opcode byte is set, else `RET`.
pub open spec fn spec_get_ret_opcode(byte: u8) -> Opcode {
    if (byte / 8) % 2 == 1 {
        Opcode::RETF
    } else {
        Opcode::RET
    }
}

/// `RETF` if bit 3 of the opcode byte is set, else `RET`.
#[verifier::when_used_as_spec(spec_get_ret_opcode)]
pub fn get_ret_opcode(byte: u8) -> (opcode: Opcode)
    ensures
        opcode == spec_get_ret_opcode(byte),
{
    proof {
        lemma_byte_fields(byte);
    }
    let fourth_bit_set = ((byte >> 3) & 0b1) == 0b1;
    if fourth_bit_set {
        Opcode::RETF
    } else {
        Opcode::RET
    }
}

/// A return that pops nothing: a single byte.
pub open spec fn spec_parse_return_no_value(bytes: Seq<u8>, inst: Instruction) -> Instruction {
    if bytes.len() < 1 {
        spec_unknown_instruction(inst)
    } else {
        spec_parse_bare_instruction(inst, spec_get_ret_opcode(bytes[0]))
    }
}

/// Decodes `bytes` into `inst`, as [`spec_parse_return_no_value`] says.
pub fn parse_return_no_value(bytes: &[u8], inst: &mut Instruction)
    ensures
        *final(inst) == spec_parse_return_no_value(bytes@, *old(inst)),
{
    if bytes.len() < 1 {
        parse_unknown_instruction(inst);
        return ;
    }
    parse_bare_instruction(inst, get_ret_opcode(bytes[0]));
}

/// A return that pops the number of bytes given by the word behind the
/// opcode byte, which the record holds as its data.
pub open spec fn spec_parse_return_with_value(bytes: Seq<u8>, inst: Instruction) -> Instruction {
    if bytes.len() < 3 {
        spec_unknown_instruction(inst)
    } else {
        Instruction {
            opcode: spec_get_ret_opcode(bytes[0]),
            length: 3,
            data: spec_get_data_value(bytes, true, 1) as u16,
            ..inst
        }
    }
}

/// Decodes `bytes` into `inst`, as [`spec_parse_return_with_value`] says.
pub fn parse_return_with_value(bytes: &[u8], inst: &mut Instruction)
    ensures
        *final(inst) == spec_parse_return_with_value(bytes@, *old(inst)),
{
    if bytes.len() < 3 {
        parse_unknown_instruction(inst);
        return ;
    }
    inst.length = 3;
    inst.opcode = get_ret_opcode(bytes[0]);
    inst.data = get_data_value(bytes, true, 1);
}

/// The number of bytes to pop, in decimal.
pub open spec fn spec_write_return_with_value(view: WriterView, inst: Instruction) -> WriterView {
    view.start_instruction(inst).append(decimal(inst.data as nat)).end_line()
}

/// Writes the line of the record, as [`spec_write_return_with_value`] says.
pub fn write_return_with_value(writer: &mut Writer, inst: &Instruction)
    requires
        old(writer)@.accepts(*inst),
    ensures
        final(writer)@ == spec_write_return_with_value(old(writer)@, *inst),
        final(writer)@.wf(),
{
    let mut count: Vec<u8> = Vec::new();
    push_decimal(&mut count, inst.data as usize);
    writer.start_instruction(inst).write(count.as_slice()).end_line();
}

/// The interrupt instruction that the two lowest bits of the opcode byte
/// select.
pub open spec fn spec_interrupt_opcode(selector: u8) -> Opcode {
    if selector == 0 {
        Opcode::INT3
    } else if selector == 1 {
        Opcode::INT
    } else if selector == 2 {
        Opcode::INTO
    } else {
        Opcode::IRET
    }
}

/// `INT3`, `INT`, `INTO` or `IRET`: only `INT` has a second byte, the
/// number of the interrupt, which the record holds as its data.
pub open spec fn spec_parse_interrupt(bytes: Seq<u8>, inst: Instruction) -> Instruction {
    if bytes.len() < 1 {
        spec_unknown_instruction(inst)
    } else if bytes[0] % 4 == 1 {
        if bytes.len() < 2 {
            spec_unknown_instruction(inst)
        } else {
            Instruction { opcode: Opcode::INT, length: 2, data: bytes[1] as u16, ..inst }
        }
    } else {
        Instruction { opcode: spec_interrupt_opcode(bytes[0] % 4), length: 1, data: 0, ..inst }
    }
}

/// Decodes `bytes` into `inst`, as [`spec_parse_interrupt`] says.
pub fn parse_interrupt(bytes: &[u8], inst: &mut Instruction)
    ensures
        *final(inst) == spec_parse_interrupt(bytes@, *old(inst)),
{
    if bytes.len() < 1 {
        parse_unknown_instruction(inst);
        return ;
    }
    proof {
        lemma_byte_fields(bytes[0]);
    }
    let interrupt_opcode = bytes[0] & 0b11;
    if interrupt_opcode == 1 {
        if bytes.len() < 2 {
            parse_unknown_instruction(inst);
            return ;
        }
        inst.opcode = Opcode::INT;
        inst.length = 2;
        inst.data = bytes[1] as u16;
    } else {
        inst.opcode = match interrupt_opcode {
            0 => Opcode::INT3,
            2 => Opcode::INTO,
            _ => Opcode::IRET,
        };
        inst.length = 1;
        inst.data = 0;
    }
}

/// The mnemonic, and the data in decimal unless its low byte is zero.
pub open spec fn spec_write_interrupt(view: WriterView, inst: Instruction) -> WriterView {
    if inst.data % 256 != 0 {
        view.start_instruction(inst).append(decimal(inst.data as nat)).end_line()
    } else {
        view.start_instruction(inst).end_line()
    }
}

/// Writes the line of the record, as [`spec_write_interrupt`] says.
pub fn write_interrupt(writer: &mut Writer, inst: &Instruction)
    requires
        old(writer)@.accepts(*inst),
    ensures
        final(writer)@ == spec_write_interrupt(old(writer)@, *inst),
        final(writer)@.wf(),
{
    writer.start_instruction(inst);
    if inst.data % 256 != 0 {
        let mut number: Vec<u8> = Vec::new();
        push_decimal(&mut number, inst.data as usize);
        writer.write(number.as_slice());
    }
    writer.end_line();
}

} // verus!
