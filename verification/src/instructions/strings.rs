//! The string instructions and the repeat prefix.
use vstd::prelude::*;
use crate::instructions::common::{
    parse_bare_instruction,
    parse_unknown_instruction,
    spec_parse_bare_instruction,
    spec_unknown_instruction,
};
use crate::instructions::instruction::Instruction;
use crate::instructions::opcode::Opcode;
use crate::writer::{Writer, WriterView};

verus! {

/// The string instruction that a first byte stands for.
pub open spec fn spec_string_opcode(byte: u8) -> Option<Opcode> {
    if byte == 0xA4 {
        Some(Opcode::MOVSB)
    } else if byte == 0xA5 {
        Some(Opcode::MOVSW)
    } else if byte == 0xA6 {
        Some(Opcode::CMPSB)
    } else if byte == 0xA7 {
        Some(Opcode::CMPSW)
    } else if byte == 0xAA {
        Some(Opcode::STOSB)
    } else if byte == 0xAB {
        Some(Opcode::STOSW)
    } else if byte == 0xAC {
        Some(Opcode::LODSB)
    } else if byte == 0xAD {
        Some(Opcode::LODSW)
    } else if byte == 0xAE {
        Some(Opcode::SCASB)
    } else if byte == 0xAF {
        Some(Opcode::SCASW)
    } else {
        None
    }
}

/// The string instruction that the first byte `byte` stands for.
#[verifier::when_used_as_spec(spec_string_opcode)]
pub fn string_opcode(byte: u8) -> (opcode: Option<Opcode>)
    ensures
        opcode == spec_string_opcode(byte),
{
    match byte {
        0b10100100 => Some(Opcode::MOVSB),
        0b10100101 => Some(Opcode::MOVSW),
        0b10100110 => Some(Opcode::CMPSB),
        0b10100111 => Some(Opcode::CMPSW),
        0b10101110 => Some(Opcode::SCASB),
        0b10101111 => Some(Opcode::SCASW),
        0b10101100 => Some(Opcode::LODSB),
        0b10101101 => Some(Opcode::LODSW),
        0b10101010 => Some(Opcode::STOSB),
        0b10101011 => Some(Opcode::STOSW),
        _ => None,
    }
}

/// A string instruction: a single byte.
pub open spec fn spec_parse_string_manipulation(bytes: Seq<u8>, inst: Instruction) -> Instruction {
    if bytes.len() < 1 {
        spec_unknown_instruction(inst)
    } else {
        match spec_string_opcode(bytes[0]) {
            Some(opcode) => spec_parse_bare_instruction(inst, opcode),
            None => spec_unknown_instruction(inst),
        }
    }
}

/// Decodes `bytes` into `inst`, as [`spec_parse_string_manipulation`] says.
pub fn parse_string_manipulation(bytes: &[u8], inst: &mut Instruction)
    ensures
        *final(inst) == spec_parse_string_manipulation(bytes@, *old(inst)),
{
    if bytes.len() < 1 {
        parse_unknown_instruction(inst);
        return ;
    }
    match string_opcode(bytes[0]) {
        Some(opcode) => parse_bare_instruction(inst, opcode),
        None => parse_unknown_instruction(inst),
    }
}

/// The repeat prefix writes nothing: its byte, the first of the retained
/// bytes, is kept for the next instruction.
pub open spec fn spec_write_repeat(view: WriterView, inst: Instruction) -> WriterView {
    view.set_repeat_prefix(inst.input[0])
}

/// Keeps the repeat prefix for the next instruction.
pub fn write_repeat(writer: &mut Writer, instruction: &Instruction)
    requires
        old(writer)@.wf(),
        old(writer)@.next_index < usize::MAX,
    ensures
        final(writer)@ == spec_write_repeat(old(writer)@, *instruction),
        final(writer)@.wf(),
{
    writer.set_repeat_prefix(instruction.input[0]);
}

} // verus!
