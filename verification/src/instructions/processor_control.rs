//! The processor control instructions, the lock prefix and the segment
//! override prefix.
use vstd::prelude::*;
use crate::instructions::common::{
    lemma_byte_fields,
    parse_bare_instruction,
    parse_unknown_instruction,
    spec_parse_bare_instruction,
    spec_unknown_instruction,
    InstRegister,
};
use crate::instructions::instruction::Instruction;
use crate::instructions::opcode::Opcode;
use crate::writer::{Writer, WriterView};

verus! {

/// The processor control instruction that a first byte stands for.
pub open spec fn spec_processor_control_opcode(byte: u8) -> Option<Opcode> {
    if byte == 0xF8 {
        Some(Opcode::CLC)
    } else if byte == 0xF5 {
        Some(Opcode::CMC)
    } else if byte == 0xF9 {
        Some(Opcode::STC)
    } else if byte == 0xFC {
        Some(Opcode::CLD)
    } else if byte == 0xFD {
        Some(Opcode::STD)
    } else if byte == 0xFA {
        Some(Opcode::CLI)
    } else if byte == 0xFB {
        Some(Opcode::STI)
    } else if byte == 0xF4 {
        Some(Opcode::HLT)
    } else if byte == 0x9B {
        Some(Opcode::WAIT)
    } else {
        None
    }
}

/// The processor control instruction that the first byte `byte` stands for.
#[verifier::when_used_as_spec(spec_processor_control_opcode)]
pub fn processor_control_opcode(byte: u8) -> (opcode: Option<Opcode>)
    ensures
        opcode == spec_processor_control_opcode(byte),
{
    match byte {
        0b11111000 => Some(Opcode::CLC),
        0b11110101 => Some(Opcode::CMC),
        0b11111001 => Some(Opcode::STC),
        0b11111100 => Some(Opcode::CLD),
        0b11111101 => Some(Opcode::STD),
        0b11111010 => Some(Opcode::CLI),
        0b11111011 => Some(Opcode::STI),
        0b11110100 => Some(Opcode::HLT),
        0b10011011 => Some(Opcode::WAIT),
        _ => None,
    }
}

/// A processor control instruction: a single byte.
pub open spec fn spec_parse_processor_control(bytes: Seq<u8>, inst: Instruction) -> Instruction {
    if bytes.len() < 1 {
        spec_unknown_instruction(inst)
    } else {
        match spec_processor_control_opcode(bytes[0]) {
            Some(opcode) => spec_parse_bare_instruction(inst, opcode),
            None => spec_unknown_instruction(inst),
        }
    }
}

/// Decodes `bytes` into `inst`, as [`spec_parse_processor_control`] says.
pub fn parse_processor_control(bytes: &[u8], inst: &mut Instruction)
    ensures
        *final(inst) == spec_parse_processor_control(bytes@, *old(inst)),
{
    if bytes.len() < 1 {
        parse_unknown_instruction(inst);
        return ;
    }
    match processor_control_opcode(bytes[0]) {
        Some(opcode) => parse_bare_instruction(inst, opcode),
        None => parse_unknown_instruction(inst),
    }
}

/// The lock prefix writes nothing: it is kept for the next instruction.
pub open spec fn spec_write_lock(view: WriterView, inst: Instruction) -> WriterView {
    view.set_lock_prefix()
}

/// Keeps the lock prefix for the next instruction.
pub fn write_lock(writer: &mut Writer, instruction: &Instruction)
    requires
        old(writer)@.wf(),
        old(writer)@.next_index < usize::MAX,
    ensures
        final(writer)@ == spec_write_lock(old(writer)@, *instruction),
        final(writer)@.wf(),
{
    writer.set_lock_prefix();
}

/// The segment override prefix: a single byte whose bits 3 and 4 name the
/// segment register.
pub open spec fn spec_parse_segment_override(bytes: Seq<u8>, inst: Instruction) -> Instruction {
    if bytes.len() < 1 {
        spec_unknown_instruction(inst)
    } else {
        Instruction {
            register: InstRegister::SegReg((bytes[0] / 8) % 4),
            ..spec_parse_bare_instruction(inst, Opcode::SEGMENT)
        }
    }
}

/// Decodes `bytes` into `inst`, as [`spec_parse_segment_override`] says.
pub fn parse_segment_override(bytes: &[u8], inst: &mut Instruction)
    ensures
        *final(inst) == spec_parse_segment_override(bytes@, *old(inst)),
{
    if bytes.len() < 1 {
        parse_unknown_instruction(inst);
        return ;
    }
    proof {
        lemma_byte_fields(bytes[0]);
    }
    parse_bare_instruction(inst, Opcode::SEGMENT);
    let seg_reg = (bytes[0] >> 3) & 0b11;
    inst.register = InstRegister::SegReg(seg_reg);
}

/// Whether the register of `inst` can stand as a segment override: its
/// index is that of a segment register.
pub open spec fn names_segment(inst: Instruction) -> bool {
    inst.register.index() < 4
}

/// The segment override prefix writes nothing: the index of its register
/// is kept for the next memory operand.
pub open spec fn spec_write_segment_override(view: WriterView, inst: Instruction) -> WriterView {
    view.set_segment_prefix(inst.register.index())
}

/// Keeps the segment override for the next memory operand.
pub fn write_segment_override(writer: &mut Writer, inst: &Instruction)
    requires
        old(writer)@.wf(),
        old(writer)@.next_index < usize::MAX,
        names_segment(*inst),
    ensures
        final(writer)@ == spec_write_segment_override(old(writer)@, *inst),
        final(writer)@.wf(),
{
    writer.set_segment_prefix(u8::from(inst.register));
}

} // verus!
