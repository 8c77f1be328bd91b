//! The descriptors of the encoding families and the resolver that picks one
//! for a byte sequence.
use vstd::prelude::*;
use crate::instructions::arithmetic::{
    parse_arithmetic_imm_to_register_memory,
    parse_ascii_adjust,
    parse_immediate_to_accumulator,
    parse_word_register,
    spec_parse_arithmetic_imm_to_register_memory,
    spec_parse_ascii_adjust,
    spec_parse_immediate_to_accumulator,
    spec_parse_word_register,
};
use crate::instructions::common::{
    lemma_byte_fields,
    parse_bare_instruction,
    parse_typical_instruction,
    parse_unknown_instruction,
    spec_parse_bare_instruction,
    spec_parse_typical_instruction,
    spec_unknown_instruction,
};
use crate::instructions::control_transfer::{
    parse_conditional_jump,
    parse_direct_intersegment,
    parse_direct_within_segment,
    parse_indirect,
    parse_interrupt,
    parse_jump_short,
    parse_return_no_value,
    parse_return_with_value,
    spec_parse_conditional_jump,
    spec_parse_direct_intersegment,
    spec_parse_direct_within_segment,
    spec_parse_indirect,
    spec_parse_interrupt,
    spec_parse_jump_short,
    spec_parse_return_no_value,
    spec_parse_return_with_value,
};
use crate::instructions::data_transfer::{
    parse_in_out_fixed_port,
    parse_in_out_variable_port,
    parse_lea_lds_les,
    parse_other_data_transfer,
    parse_xchg_register_with_accumulator,
    spec_parse_in_out_fixed_port,
    spec_parse_in_out_variable_port,
    spec_parse_lea_lds_les,
    spec_parse_other_data_transfer,
    spec_parse_xchg_register_with_accumulator,
};
use crate::instructions::instruction::Instruction;
use crate::instructions::logic::{parse_test_immediate, spec_parse_test_immediate};
use crate::instructions::mov::{
    parse_mov_immediate_to_memory,
    parse_mov_immediate_to_register,
    parse_mov_memory_to_accumulator,
    parse_mov_to_segment_register,
    spec_parse_mov_immediate_to_memory,
    spec_parse_mov_immediate_to_register,
    spec_parse_mov_memory_to_accumulator,
    spec_parse_mov_to_segment_register,
};
use crate::instructions::opcode::Opcode;
use crate::instructions::processor_control::{
    parse_processor_control,
    parse_segment_override,
    spec_parse_processor_control,
    spec_parse_segment_override,
};
use crate::instructions::push_pop::{
    parse_push_pop_register,
    parse_push_pop_register_or_memory,
    parse_push_pop_segment_register,
    spec_parse_push_pop_register,
    spec_parse_push_pop_register_or_memory,
    spec_parse_push_pop_segment_register,
};
use crate::instructions::strings::{parse_string_manipulation, spec_parse_string_manipulation};

verus! {

/// How the bytes of an encoding family are decoded into a record.
#[derive(Debug, Copy, Clone, PartialEq, Eq, Structural)]
pub enum ParseFn {
    /// No instruction: the record gets length zero.
    Unknown,
    /// Opcode byte and ModR/M byte, with the displacement the latter asks for.
    Typical(Opcode),
    /// A single byte that only names the instruction.
    Bare(Opcode),
    /// `PUSH` or `POP` of the general register in the three lowest bits of
    /// a single byte.
    PushPopRegister(Opcode),
    /// `PUSH` or `POP` of the segment register in bits 3 and 4 of a single
    /// byte.
    PushPopSegmentRegister(Opcode),
    /// A single byte with a general register in its three lowest bits, as
    /// `INC` and `DEC` of a word register have it.
    WordRegister(Opcode),
    /// An immediate for the accumulator behind the opcode byte.
    ImmediateToAccumulator(Opcode),
    /// `AAM` and `AAD`: the opcode byte and the byte `0x0A`.
    AsciiAdjust(Opcode),
    MovImmediateToMemory,
    MovImmediateToRegister,
    MovMemoryToAccumulator,
    MovToSegmentRegister,
    ArithmeticImmediate,
    TestImmediate,
    PushPopRegisterOrMemory,
    XchgRegisterWithAccumulator,
    InOutFixedPort,
    InOutVariablePort,
    LeaLdsLes,
    OtherDataTransfer,
    StringManipulation,
    DirectWithinSegment,
    JumpDirectWithinSegmentShort,
    IndirectWithinSegment,
    DirectIntersegment,
    IndirectIntersegment,
    ConditionalJump,
    ReturnNoValue,
    ReturnWithValue,
    Interrupt,
    ProcessorControl,
    SegmentOverride,
}

/// How the record of an encoding family is rendered.
#[derive(Debug, Copy, Clone, PartialEq, Eq, Structural)]
pub enum WriteFn {
    /// Nothing can be rendered: the record is no instruction.
    Unimplemented,
    /// Destination, comma, source.
    Typical,
    /// Destination, comma, immediate.
    Immediate,
    /// Register or memory operand, qualified by its size if in memory, comma,
    /// immediate in hexadecimal.
    MovImmediateToMemory,
    /// As for `MOV`, for the eight arithmetic instructions.
    ArithmeticImmediate,
    /// A single register or memory operand, qualified by its size if in memory.
    MemoryOrRegister,
    /// A single register, named in word form.
    OnlyRegister,
    /// The mnemonic alone.
    Bare,
    /// Shifts and rotates: operand, comma, `1` or `cl`.
    Logic,
    /// `TEST` with an immediate: operand, comma, signed immediate.
    TestImmediate,
    /// `PUSH` and `POP`: `word` and the operand.
    PushOrPop,
    InOutFixedPort,
    InOutVariablePort,
    /// A label for the target of a conditional jump or loop.
    ConditionalJump,
    /// A label for the target of a relative call or jump.
    DirectWithinSegment,
    /// Segment and offset of a far target, in decimal.
    DirectIntersegment,
    /// The register or memory operand that holds a near target.
    IndirectWithinSegment,
    /// `far` and the memory operand that holds a far target.
    IndirectIntersegment,
    ReturnWithValue,
    Interrupt,
    /// The prefixes write nothing: they are kept for the next instruction.
    RepeatPrefix,
    LockPrefix,
    SegmentPrefix,
}

/// The descriptor of an encoding family: how its bytes are decoded and how
/// its record is rendered.
#[derive(Debug, Copy, Clone, PartialEq, Eq, Structural)]
pub struct Description {
    pub parse_fn: ParseFn,
    pub write_fn: WriteFn,
}

impl Description {
    /// The descriptor of the encoding family that is decoded by `parse_fn`
    /// and rendered by `write_fn`.
    #[verifier::allow_in_spec]
    pub fn new(parse_fn: ParseFn, write_fn: WriteFn) -> Description
        returns
            (Description { parse_fn, write_fn }),
    {
        Description { parse_fn, write_fn }
    }

    /// The descriptor of a byte sequence that is no instruction.
    #[verifier::allow_in_spec]
    pub fn unimplemented() -> Description
        returns
            Description::new(ParseFn::Unknown, WriteFn::Unimplemented),
    {
        Description::new(ParseFn::Unknown, WriteFn::Unimplemented)
    }
}

/// The `reg` field of the second byte of `bytes`, which selects the
/// instruction behind some first bytes; none if there is no second byte.
pub open spec fn secondary_opcode(bytes: Seq<u8>) -> Option<u8> {
    if bytes.len() < 2 {
        None
    } else {
        Some((bytes[1] / 8) % 8)
    }
}

fn get_secondary_opcode(bytes: &[u8]) -> (selector: Option<u8>)
    ensures
        selector == secondary_opcode(bytes@),
{
    if bytes.len() < 2 {
        None
    } else {
        proof {
            lemma_byte_fields(bytes[1]);
        }
        Some((bytes[1] >> 3) & 0b111)
    }
}

/// The shift or rotate that the `reg` field of the second byte selects.
pub open spec fn spec_resolve_logic_bytes(bytes: Seq<u8>) -> Description {
    match secondary_opcode(bytes) {
        Some(selector) => if selector == 0 {
            Description::new(ParseFn::Typical(Opcode::ROL), WriteFn::Logic)
        } else if selector == 1 {
            Description::new(ParseFn::Typical(Opcode::ROR), WriteFn::Logic)
        } else if selector == 2 {
            Description::new(ParseFn::Typical(Opcode::RCL), WriteFn::Logic)
        } else if selector == 3 {
            Description::new(ParseFn::Typical(Opcode::RCR), WriteFn::Logic)
        } else if selector == 4 {
            Description::new(ParseFn::Typical(Opcode::SAL), WriteFn::Logic)
        } else if selector == 5 {
            Description::new(ParseFn::Typical(Opcode::SHR), WriteFn::Logic)
        } else if selector == 7 {
            Description::new(ParseFn::Typical(Opcode::SAR), WriteFn::Logic)
        } else {
            Description::unimplemented()
        },
        None => Description::unimplemented(),
    }
}

/// Picks the descriptor of a shift or rotate by the second byte.
pub fn resolve_logic_bytes(bytes: &[u8]) -> (description: Description)
    ensures
        description == spec_resolve_logic_bytes(bytes@),
{
    match get_secondary_opcode(bytes) {
        Some(0b000) => Description::new(ParseFn::Typical(Opcode::ROL), WriteFn::Logic),
        Some(0b001) => Description::new(ParseFn::Typical(Opcode::ROR), WriteFn::Logic),
        Some(0b010) => Description::new(ParseFn::Typical(Opcode::RCL), WriteFn::Logic),
        Some(0b011) => Description::new(ParseFn::Typical(Opcode::RCR), WriteFn::Logic),
        Some(0b100) => Description::new(ParseFn::Typical(Opcode::SAL), WriteFn::Logic),
        Some(0b101) => Description::new(ParseFn::Typical(Opcode::SHR), WriteFn::Logic),
        Some(0b111) => Description::new(ParseFn::Typical(Opcode::SAR), WriteFn::Logic),
        _ => Description::unimplemented(),
    }
}

/// The instruction that the `reg` field of the second byte selects behind
/// the first byte `0xF6` or `0xF7`.
pub open spec fn spec_resolve_f6_or_f7_byte(bytes: Seq<u8>) -> Description {
    match secondary_opcode(bytes) {
        Some(selector) => if selector == 0 {
            Description::new(ParseFn::TestImmediate, WriteFn::TestImmediate)
        } else if selector == 2 {
            Description::new(ParseFn::Typical(Opcode::NOT), WriteFn::MemoryOrRegister)
        } else if selector == 3 {
            Description::new(ParseFn::Typical(Opcode::NEG), WriteFn::MemoryOrRegister)
        } else if selector == 4 {
            Description::new(ParseFn::Typical(Opcode::MUL), WriteFn::MemoryOrRegister)
        } else if selector == 5 {
            Description::new(ParseFn::Typical(Opcode::IMUL), WriteFn::MemoryOrRegister)
        } else if selector == 6 {
            Description::new(ParseFn::Typical(Opcode::DIV), WriteFn::MemoryOrRegister)
        } else if selector == 7 {
            Description::new(ParseFn::Typical(Opcode::IDIV), WriteFn::MemoryOrRegister)
        } else {
            Description::unimplemented()
        },
        None => Description::unimplemented(),
    }
}

/// Picks the descriptor behind the first byte `0xF6` or `0xF7`.
pub fn resolve_f6_or_f7_byte(bytes: &[u8]) -> (description: Description)
    ensures
        description == spec_resolve_f6_or_f7_byte(bytes@),
{
    match get_secondary_opcode(bytes) {
        Some(0b000) => Description::new(ParseFn::TestImmediate, WriteFn::TestImmediate),
        Some(0b010) => Description::new(ParseFn::Typical(Opcode::NOT), WriteFn::MemoryOrRegister),
        Some(0b011) => Description::new(ParseFn::Typical(Opcode::NEG), WriteFn::MemoryOrRegister),
        Some(0b100) => Description::new(ParseFn::Typical(Opcode::MUL), WriteFn::MemoryOrRegister),
        Some(0b101) => Description::new(ParseFn::Typical(Opcode::IMUL), WriteFn::MemoryOrRegister),
        Some(0b110) => Description::new(ParseFn::Typical(Opcode::DIV), WriteFn::MemoryOrRegister),
        Some(0b111) => Description::new(ParseFn::Typical(Opcode::IDIV), WriteFn::MemoryOrRegister),
        _ => Description::unimplemented(),
    }
}

/// The instruction that the `reg` field of the second byte selects behind
/// the first byte `0xFE`.
pub open spec fn spec_resolve_fe_byte(bytes: Seq<u8>) -> Description {
    match secondary_opcode(bytes) {
        Some(selector) => if selector == 0 {
            Description::new(ParseFn::Typical(Opcode::INC), WriteFn::MemoryOrRegister)
        } else if selector == 1 {
            Description::new(ParseFn::Typical(Opcode::DEC), WriteFn::MemoryOrRegister)
        } else {
            Description::unimplemented()
        },
        None => Description::unimplemented(),
    }
}

/// Picks the descriptor behind the first byte `0xFE`.
pub fn resolve_fe_byte(bytes: &[u8]) -> (description: Description)
    ensures
        description == spec_resolve_fe_byte(bytes@),
{
    match get_secondary_opcode(bytes) {
        Some(0b000) => Description::new(ParseFn::Typical(Opcode::INC), WriteFn::MemoryOrRegister),
        Some(0b001) => Description::new(ParseFn::Typical(Opcode::DEC), WriteFn::MemoryOrRegister),
        _ => Description::unimplemented(),
    }
}

/// The instruction that the `reg` field of the second byte selects behind
/// the first byte `0xFF`.
pub open spec fn spec_resolve_ff_byte(bytes: Seq<u8>) -> Description {
    match secondary_opcode(bytes) {
        Some(selector) => if selector == 0 {
            Description::new(ParseFn::Typical(Opcode::INC), WriteFn::MemoryOrRegister)
        } else if selector == 1 {
            Description::new(ParseFn::Typical(Opcode::DEC), WriteFn::MemoryOrRegister)
        } else if selector == 2 || selector == 4 {
            Description::new(ParseFn::IndirectWithinSegment, WriteFn::IndirectWithinSegment)
        } else if selector == 3 || selector == 5 {
            Description::new(ParseFn::IndirectIntersegment, WriteFn::IndirectIntersegment)
        } else if selector == 6 {
            Description::new(ParseFn::PushPopRegisterOrMemory, WriteFn::PushOrPop)
        } else {
            Description::unimplemented()
        },
        None => Description::unimplemented(),
    }
}

/// Picks the descriptor behind the first byte `0xFF`.
pub fn resolve_ff_byte(bytes: &[u8]) -> (description: Description)
    ensures
        description == spec_resolve_ff_byte(bytes@),
{
    match get_secondary_opcode(bytes) {
        Some(0b000) => Description::new(ParseFn::Typical(Opcode::INC), WriteFn::MemoryOrRegister),
        Some(0b001) => Description::new(ParseFn::Typical(Opcode::DEC), WriteFn::MemoryOrRegister),
        Some(0b010) | Some(0b100) => {
            Description::new(ParseFn::IndirectWithinSegment, WriteFn::IndirectWithinSegment)
        },
        Some(0b011) | Some(0b101) => {
            Description::new(ParseFn::IndirectIntersegment, WriteFn::IndirectIntersegment)
        },
        Some(0b110) => Description::new(ParseFn::PushPopRegisterOrMemory, WriteFn::PushOrPop),
        _ => Description::unimplemented(),
    }
}

/// The descriptor of the instruction that `bytes` begin with, picked by the
/// first byte and, behind some first bytes, by the `reg` field of the
/// second. Bytes that begin no instruction get the descriptor of none.
pub open spec fn spec_resolve(bytes: Seq<u8>) -> Description {
    let b = bytes[0];
    if 0x88 <= b <= 0x8B {
        Description::new(ParseFn::Typical(Opcode::MOV), WriteFn::Typical)
    } else if b == 0xC6 || b == 0xC7 {
        Description::new(ParseFn::MovImmediateToMemory, WriteFn::MovImmediateToMemory)
    } else if 0xB0 <= b <= 0xBF {
        Description::new(ParseFn::MovImmediateToRegister, WriteFn::Immediate)
    } else if 0xA0 <= b <= 0xA3 {
        Description::new(ParseFn::MovMemoryToAccumulator, WriteFn::Typical)
    } else if b == 0x8C || b == 0x8E {
        Description::new(ParseFn::MovToSegmentRegister, WriteFn::Typical)
    } else if 0xD0 <= b <= 0xD3 {
        spec_resolve_logic_bytes(bytes)
    } else if b == 0xF6 || b == 0xF7 {
        spec_resolve_f6_or_f7_byte(bytes)
    } else if b == 0xFE {
        spec_resolve_fe_byte(bytes)
    } else if b == 0xFF {
        spec_resolve_ff_byte(bytes)
    } else if 0x50 <= b <= 0x57 {
        Description::new(ParseFn::PushPopRegister(Opcode::PUSH), WriteFn::PushOrPop)
    } else if b == 0x06 || b == 0x0E || b == 0x16 || b == 0x1E {
        Description::new(ParseFn::PushPopSegmentRegister(Opcode::PUSH), WriteFn::PushOrPop)
    } else if b == 0x8F {
        Description::new(ParseFn::PushPopRegisterOrMemory, WriteFn::PushOrPop)
    } else if 0x58 <= b <= 0x5F {
        Description::new(ParseFn::PushPopRegister(Opcode::POP), WriteFn::PushOrPop)
    } else if b == 0x07 || b == 0x0F || b == 0x17 || b == 0x1F {
        Description::new(ParseFn::PushPopSegmentRegister(Opcode::POP), WriteFn::PushOrPop)
    } else if b == 0x86 || b == 0x87 {
        Description::new(ParseFn::Typical(Opcode::XCHG), WriteFn::Typical)
    } else if 0x90 <= b <= 0x97 {
        Description::new(ParseFn::XchgRegisterWithAccumulator, WriteFn::Typical)
    } else if 0xE4 <= b <= 0xE7 {
        Description::new(ParseFn::InOutFixedPort, WriteFn::InOutFixedPort)
    } else if 0xEC <= b <= 0xEF {
        Description::new(ParseFn::InOutVariablePort, WriteFn::InOutVariablePort)
    } else if b == 0xD7 || b == 0x9F || b == 0x9E || b == 0x9C || b == 0x9D {
        Description::new(ParseFn::OtherDataTransfer, WriteFn::Bare)
    } else if b == 0x8D || b == 0xC5 || b == 0xC4 {
        Description::new(ParseFn::LeaLdsLes, WriteFn::Typical)
    } else if b <= 0x03 {
        Description::new(ParseFn::Typical(Opcode::ADD), WriteFn::Typical)
    } else if 0x80 <= b <= 0x83 {
        Description::new(ParseFn::ArithmeticImmediate, WriteFn::ArithmeticImmediate)
    } else if b == 0x04 || b == 0x05 {
        Description::new(ParseFn::ImmediateToAccumulator(Opcode::ADD), WriteFn::Immediate)
    } else if 0x10 <= b <= 0x13 {
        Description::new(ParseFn::Typical(Opcode::ADC), WriteFn::Typical)
    } else if b == 0x14 || b == 0x15 {
        Description::new(ParseFn::ImmediateToAccumulator(Opcode::ADC), WriteFn::Immediate)
    } else if 0x40 <= b <= 0x47 {
        Description::new(ParseFn::WordRegister(Opcode::INC), WriteFn::OnlyRegister)
    } else if b == 0x37 {
        Description::new(ParseFn::Bare(Opcode::AAA), WriteFn::Bare)
    } else if b == 0x27 {
        Description::new(ParseFn::Bare(Opcode::DAA), WriteFn::Bare)
    } else if 0x28 <= b <= 0x2B {
        Description::new(ParseFn::Typical(Opcode::SUB), WriteFn::Typical)
    } else if b == 0x2C || b == 0x2D {
        Description::new(ParseFn::ImmediateToAccumulator(Opcode::SUB), WriteFn::Immediate)
    } else if 0x18 <= b <= 0x1B {
        Description::new(ParseFn::Typical(Opcode::SBB), WriteFn::Typical)
    } else if b == 0x1C || b == 0x1D {
        Description::new(ParseFn::ImmediateToAccumulator(Opcode::SBB), WriteFn::Immediate)
    } else if 0x48 <= b <= 0x4F {
        Description::new(ParseFn::WordRegister(Opcode::DEC), WriteFn::OnlyRegister)
    } else if 0x38 <= b <= 0x3B {
        Description::new(ParseFn::Typical(Opcode::CMP), WriteFn::Typical)
    } else if b == 0x3C || b == 0x3D {
        Description::new(ParseFn::ImmediateToAccumulator(Opcode::CMP), WriteFn::Immediate)
    } else if b == 0x3F {
        Description::new(ParseFn::Bare(Opcode::AAS), WriteFn::Bare)
    } else if b == 0x2F {
        Description::new(ParseFn::Bare(Opcode::DAS), WriteFn::Bare)
    } else if b == 0xD4 {
        Description::new(ParseFn::AsciiAdjust(Opcode::AAM), WriteFn::Bare)
    } else if b == 0xD5 {
        Description::new(ParseFn::AsciiAdjust(Opcode::AAD), WriteFn::Bare)
    } else if b == 0x98 {
        Description::new(ParseFn::Bare(Opcode::CBW), WriteFn::Bare)
    } else if b == 0x99 {
        Description::new(ParseFn::Bare(Opcode::CWD), WriteFn::Bare)
    } else if 0x20 <= b <= 0x23 {
        Description::new(ParseFn::Typical(Opcode::AND), WriteFn::Typical)
    } else if b == 0x24 || b == 0x25 {
        Description::new(ParseFn::ImmediateToAccumulator(Opcode::AND), WriteFn::Immediate)
    } else if b == 0x84 || b == 0x85 {
        Description::new(ParseFn::Typical(Opcode::TEST), WriteFn::Typical)
    } else if b == 0xA8 || b == 0xA9 {
        Description::new(ParseFn::ImmediateToAccumulator(Opcode::TEST), WriteFn::Immediate)
    } else if 0x08 <= b <= 0x0B {
        Description::new(ParseFn::Typical(Opcode::OR), WriteFn::Typical)
    } else if b == 0x0C || b == 0x0D {
        Description::new(ParseFn::ImmediateToAccumulator(Opcode::OR), WriteFn::Immediate)
    } else if 0x30 <= b <= 0x33 {
        Description::new(ParseFn::Typical(Opcode::XOR), WriteFn::Typical)
    } else if b == 0x34 || b == 0x35 {
        Description::new(ParseFn::ImmediateToAccumulator(Opcode::XOR), WriteFn::Immediate)
    } else if b == 0xF2 || b == 0xF3 {
        Description::new(ParseFn::Bare(Opcode::REP), WriteFn::RepeatPrefix)
    } else if 0xA4 <= b <= 0xA7 || 0xAA <= b <= 0xAF {
        Description::new(ParseFn::StringManipulation, WriteFn::Bare)
    } else if b == 0xE8 || b == 0xE9 {
        Description::new(ParseFn::DirectWithinSegment, WriteFn::DirectWithinSegment)
    } else if b == 0xEB {
        Description::new(ParseFn::JumpDirectWithinSegmentShort, WriteFn::DirectWithinSegment)
    } else if b == 0x9A || b == 0xEA {
        Description::new(ParseFn::DirectIntersegment, WriteFn::DirectIntersegment)
    } else if b == 0xC3 || b == 0xCB {
        Description::new(ParseFn::ReturnNoValue, WriteFn::Bare)
    } else if b == 0xC2 || b == 0xCA {
        Description::new(ParseFn::ReturnWithValue, WriteFn::ReturnWithValue)
    } else if 0x70 <= b <= 0x7F || 0xE0 <= b <= 0xE3 {
        Description::new(ParseFn::ConditionalJump, WriteFn::ConditionalJump)
    } else if 0xCC <= b <= 0xCF {
        Description::new(ParseFn::Interrupt, WriteFn::Interrupt)
    } else if b == 0xF8 || b == 0xF5 || b == 0xF9 || b == 0xFC || b == 0xFD || b == 0xFA
        || b == 0xFB || b == 0xF4 || b == 0x9B {
        Description::new(ParseFn::ProcessorControl, WriteFn::Bare)
    } else if b == 0xF0 {
        Description::new(ParseFn::Bare(Opcode::LOCK), WriteFn::LockPrefix)
    } else if b == 0x26 || b == 0x2E || b == 0x36 || b == 0x3E {
        Description::new(ParseFn::SegmentOverride, WriteFn::SegmentPrefix)
    } else {
        Description::unimplemented()
    }
}

/// Picks the descriptor of the instruction that `bytes` begin with.
pub fn resolve(bytes: &[u8]) -> (description: Description)
    requires
        bytes.len() > 0,
    ensures
        description == spec_resolve(bytes@),
{
    match bytes[0] {
        0b10001000..=0b10001011 => {
            Description::new(ParseFn::Typical(Opcode::MOV), WriteFn::Typical)
        },
        0b11000110 | 0b11000111 => {
            Description::new(ParseFn::MovImmediateToMemory, WriteFn::MovImmediateToMemory)
        },
        0b10110000..=0b10111111 => {
            Description::new(ParseFn::MovImmediateToRegister, WriteFn::Immediate)
        },
        0b10100000..=0b10100011 => {
            Description::new(ParseFn::MovMemoryToAccumulator, WriteFn::Typical)
        },
        0b10001100 | 0b10001110 => {
            Description::new(ParseFn::MovToSegmentRegister, WriteFn::Typical)
        },
        0b11010000..=0b11010011 => resolve_logic_bytes(bytes),
        0b11110110 | 0b11110111 => resolve_f6_or_f7_byte(bytes),
        0b11111110 => resolve_fe_byte(bytes),
        0b11111111 => resolve_ff_byte(bytes),
        0b01010000..=0b01010111 => {
            Description::new(ParseFn::PushPopRegister(Opcode::PUSH), WriteFn::PushOrPop)
        },
        0b00000110 | 0b00001110 | 0b00010110 | 0b00011110 => {
            Description::new(ParseFn::PushPopSegmentRegister(Opcode::PUSH), WriteFn::PushOrPop)
        },
        0b10001111 => Description::new(ParseFn::PushPopRegisterOrMemory, WriteFn::PushOrPop),
        0b01011000..=0b01011111 => {
            Description::new(ParseFn::PushPopRegister(Opcode::POP), WriteFn::PushOrPop)
        },
        0b00000111 | 0b00001111 | 0b00010111 | 0b00011111 => {
            Description::new(ParseFn::PushPopSegmentRegister(Opcode::POP), WriteFn::PushOrPop)
        },
        0b10000110 | 0b10000111 => {
            Description::new(ParseFn::Typical(Opcode::XCHG), WriteFn::Typical)
        },
        0b10010000..=0b10010111 => {
            Description::new(ParseFn::XchgRegisterWithAccumulator, WriteFn::Typical)
        },
        0b11100100..=0b11100111 => {
            Description::new(ParseFn::InOutFixedPort, WriteFn::InOutFixedPort)
        },
        0b11101100..=0b11101111 => {
            Description::new(ParseFn::InOutVariablePort, WriteFn::InOutVariablePort)
        },
        0b11010111 | 0b10011111 | 0b10011110
        | 0b10011100 | 0b10011101 => {
            Description::new(ParseFn::OtherDataTransfer, WriteFn::Bare)
        },
        0b10001101 | 0b11000101 | 0b11000100 => {
            Description::new(ParseFn::LeaLdsLes, WriteFn::Typical)
        },
        0b00000000..=0b00000011 => {
            Description::new(ParseFn::Typical(Opcode::ADD), WriteFn::Typical)
        },
        0b10000000..=0b10000011 => {
            Description::new(ParseFn::ArithmeticImmediate, WriteFn::ArithmeticImmediate)
        },
        0b00000100 | 0b00000101 => {
            Description::new(ParseFn::ImmediateToAccumulator(Opcode::ADD), WriteFn::Immediate)
        },
        0b00010000..=0b00010011 => {
            Description::new(ParseFn::Typical(Opcode::ADC), WriteFn::Typical)
        },
        0b00010100 | 0b00010101 => {
            Description::new(ParseFn::ImmediateToAccumulator(Opcode::ADC), WriteFn::Immediate)
        },
        0b01000000..=0b01000111 => {
            Description::new(ParseFn::WordRegister(Opcode::INC), WriteFn::OnlyRegister)
        },
        0b00110111 => Description::new(ParseFn::Bare(Opcode::AAA), WriteFn::Bare),
        0b00100111 => Description::new(ParseFn::Bare(Opcode::DAA), WriteFn::Bare),
        0b00101000..=0b00101011 => {
            Description::new(ParseFn::Typical(Opcode::SUB), WriteFn::Typical)
        },
        0b00101100 | 0b00101101 => {
            Description::new(ParseFn::ImmediateToAccumulator(Opcode::SUB), WriteFn::Immediate)
        },
        0b00011000..=0b00011011 => {
            Description::new(ParseFn::Typical(Opcode::SBB), WriteFn::Typical)
        },
        0b00011100 | 0b00011101 => {
            Description::new(ParseFn::ImmediateToAccumulator(Opcode::SBB), WriteFn::Immediate)
        },
        0b01001000..=0b01001111 => {
            Description::new(ParseFn::WordRegister(Opcode::DEC), WriteFn::OnlyRegister)
        },
        0b00111000..=0b00111011 => {
            Description::new(ParseFn::Typical(Opcode::CMP), WriteFn::Typical)
        },
        0b00111100 | 0b00111101 => {
            Description::new(ParseFn::ImmediateToAccumulator(Opcode::CMP), WriteFn::Immediate)
        },
        0b00111111 => Description::new(ParseFn::Bare(Opcode::AAS), WriteFn::Bare),
        0b00101111 => Description::new(ParseFn::Bare(Opcode::DAS), WriteFn::Bare),
        0b11010100 => Description::new(ParseFn::AsciiAdjust(Opcode::AAM), WriteFn::Bare),
        0b11010101 => Description::new(ParseFn::AsciiAdjust(Opcode::AAD), WriteFn::Bare),
        0b10011000 => Description::new(ParseFn::Bare(Opcode::CBW), WriteFn::Bare),
        0b10011001 => Description::new(ParseFn::Bare(Opcode::CWD), WriteFn::Bare),
        0b00100000..=0b00100011 => {
            Description::new(ParseFn::Typical(Opcode::AND), WriteFn::Typical)
        },
        0b00100100 | 0b00100101 => {
            Description::new(ParseFn::ImmediateToAccumulator(Opcode::AND), WriteFn::Immediate)
        },
        0b10000100..=0b10000111 => {
            Description::new(ParseFn::Typical(Opcode::TEST), WriteFn::Typical)
        },
        0b10101000 | 0b10101001 => {
            Description::new(ParseFn::ImmediateToAccumulator(Opcode::TEST), WriteFn::Immediate)
        },
        0b00001000..=0b00001011 => Description::new(ParseFn::Typical(Opcode::OR), WriteFn::Typical),
        0b00001100 | 0b00001101 => {
            Description::new(ParseFn::ImmediateToAccumulator(Opcode::OR), WriteFn::Immediate)
        },
        0b00110000..=0b00110011 => {
            Description::new(ParseFn::Typical(Opcode::XOR), WriteFn::Typical)
        },
        0b00110100 | 0b00110101 => {
            Description::new(ParseFn::ImmediateToAccumulator(Opcode::XOR), WriteFn::Immediate)
        },
        0b11110010 | 0b11110011 => {
            Description::new(ParseFn::Bare(Opcode::REP), WriteFn::RepeatPrefix)
        },
        0b10100100..=0b10100111 | 0b10101010..=0b10101111 => {
            Description::new(ParseFn::StringManipulation, WriteFn::Bare)
        },
        0b11101000 | 0b11101001 => {
            Description::new(ParseFn::DirectWithinSegment, WriteFn::DirectWithinSegment)
        },
        0b11101011 => {
            Description::new(ParseFn::JumpDirectWithinSegmentShort, WriteFn::DirectWithinSegment)
        },
        0b10011010 | 0b11101010 => {
            Description::new(ParseFn::DirectIntersegment, WriteFn::DirectIntersegment)
        },
        0b11000011 | 0b11001011 => Description::new(ParseFn::ReturnNoValue, WriteFn::Bare),
        0b11000010 | 0b11001010 => {
            Description::new(ParseFn::ReturnWithValue, WriteFn::ReturnWithValue)
        },
        0b01110000..=0b01111111 | 0b11100000..=0b11100011 => {
            Description::new(ParseFn::ConditionalJump, WriteFn::ConditionalJump)
        },
        0b11001100..=0b11001111 => Description::new(ParseFn::Interrupt, WriteFn::Interrupt),
        0b11111000 | 0b11110101 | 0b11111001 | 0b11111100
        | 0b11111101 | 0b11111010 | 0b11111011
        | 0b11110100 | 0b10011011 => {
            Description::new(ParseFn::ProcessorControl, WriteFn::Bare)
        },
        0b11110000 => Description::new(ParseFn::Bare(Opcode::LOCK), WriteFn::LockPrefix),
        0b00100110 | 0b00101110 | 0b00110110 | 0b00111110 => {
            Description::new(ParseFn::SegmentOverride, WriteFn::SegmentPrefix)
        },
        _ => Description::unimplemented(),
    }
}

impl Description {
    /// The record that the decoder of this descriptor makes of `bytes`,
    /// starting from the record `inst`.
    pub open spec fn spec_parse(self, bytes: Seq<u8>, inst: Instruction) -> Instruction {
        match self.parse_fn {
            ParseFn::Unknown => spec_unknown_instruction(inst),
            ParseFn::Typical(opcode) => spec_parse_typical_instruction(inst, opcode, bytes),
            ParseFn::Bare(opcode) => spec_parse_bare_instruction(inst, opcode),
            ParseFn::PushPopRegister(opcode) => spec_parse_push_pop_register(inst, opcode, bytes),
            ParseFn::PushPopSegmentRegister(opcode) => spec_parse_push_pop_segment_register(
                inst,
                opcode,
                bytes,
            ),
            ParseFn::WordRegister(opcode) => spec_parse_word_register(inst, opcode, bytes),
            ParseFn::ImmediateToAccumulator(opcode) => spec_parse_immediate_to_accumulator(
                inst,
                opcode,
                bytes,
            ),
            ParseFn::AsciiAdjust(opcode) => spec_parse_ascii_adjust(inst, opcode, bytes),
            ParseFn::MovImmediateToMemory => spec_parse_mov_immediate_to_memory(bytes, inst),
            ParseFn::MovImmediateToRegister => spec_parse_mov_immediate_to_register(bytes, inst),
            ParseFn::MovMemoryToAccumulator => spec_parse_mov_memory_to_accumulator(bytes, inst),
            ParseFn::MovToSegmentRegister => spec_parse_mov_to_segment_register(bytes, inst),
            ParseFn::ArithmeticImmediate => spec_parse_arithmetic_imm_to_register_memory(
                bytes,
                inst,
            ),
            ParseFn::TestImmediate => spec_parse_test_immediate(bytes, inst),
            ParseFn::PushPopRegisterOrMemory => spec_parse_push_pop_register_or_memory(bytes, inst),
            ParseFn::XchgRegisterWithAccumulator => spec_parse_xchg_register_with_accumulator(
                bytes,
                inst,
            ),
            ParseFn::InOutFixedPort => spec_parse_in_out_fixed_port(bytes, inst),
            ParseFn::InOutVariablePort => spec_parse_in_out_variable_port(bytes, inst),
            ParseFn::LeaLdsLes => spec_parse_lea_lds_les(bytes, inst),
            ParseFn::OtherDataTransfer => spec_parse_other_data_transfer(bytes, inst),
            ParseFn::StringManipulation => spec_parse_string_manipulation(bytes, inst),
            ParseFn::DirectWithinSegment => spec_parse_direct_within_segment(bytes, inst),
            ParseFn::JumpDirectWithinSegmentShort => spec_parse_jump_short(bytes, inst),
            ParseFn::IndirectWithinSegment => spec_parse_indirect(bytes, inst),
            ParseFn::DirectIntersegment => spec_parse_direct_intersegment(bytes, inst),
            ParseFn::IndirectIntersegment => spec_parse_indirect(bytes, inst),
            ParseFn::ConditionalJump => spec_parse_conditional_jump(bytes, inst),
            ParseFn::ReturnNoValue => spec_parse_return_no_value(bytes, inst),
            ParseFn::ReturnWithValue => spec_parse_return_with_value(bytes, inst),
            ParseFn::Interrupt => spec_parse_interrupt(bytes, inst),
            ParseFn::ProcessorControl => spec_parse_processor_control(bytes, inst),
            ParseFn::SegmentOverride => spec_parse_segment_override(bytes, inst),
        }
    }

    /// Decodes `bytes` into `inst`. Bytes that are no instruction of this
    /// descriptor, or that end before the instruction does, give a record of
    /// length zero; the decoder reads no byte beyond the length it reports.
    pub fn parse(&self, bytes: &[u8], inst: &mut Instruction)
        ensures
            *final(inst) == self.spec_parse(bytes@, *old(inst)),
    {
        match self.parse_fn {
            ParseFn::Unknown => parse_unknown_instruction(inst),
            ParseFn::Typical(opcode) => parse_typical_instruction(inst, opcode, bytes),
            ParseFn::Bare(opcode) => parse_bare_instruction(inst, opcode),
            ParseFn::PushPopRegister(opcode) => parse_push_pop_register(inst, opcode, bytes),
            ParseFn::PushPopSegmentRegister(opcode) => parse_push_pop_segment_register(
                inst,
                opcode,
                bytes,
            ),
            ParseFn::WordRegister(opcode) => parse_word_register(inst, opcode, bytes),
            ParseFn::ImmediateToAccumulator(opcode) => parse_immediate_to_accumulator(
                inst,
                opcode,
                bytes,
            ),
            ParseFn::AsciiAdjust(opcode) => parse_ascii_adjust(inst, opcode, bytes),
            ParseFn::MovImmediateToMemory => parse_mov_immediate_to_memory(bytes, inst),
            ParseFn::MovImmediateToRegister => parse_mov_immediate_to_register(bytes, inst),
            ParseFn::MovMemoryToAccumulator => parse_mov_memory_to_accumulator(bytes, inst),
            ParseFn::MovToSegmentRegister => parse_mov_to_segment_register(bytes, inst),
            ParseFn::ArithmeticImmediate => parse_arithmetic_imm_to_register_memory(bytes, inst),
            ParseFn::TestImmediate => parse_test_immediate(bytes, inst),
            ParseFn::PushPopRegisterOrMemory => parse_push_pop_register_or_memory(bytes, inst),
            ParseFn::XchgRegisterWithAccumulator => parse_xchg_register_with_accumulator(
                bytes,
                inst,
            ),
            ParseFn::InOutFixedPort => parse_in_out_fixed_port(bytes, inst),
            ParseFn::InOutVariablePort => parse_in_out_variable_port(bytes, inst),
            ParseFn::LeaLdsLes => parse_lea_lds_les(bytes, inst),
            ParseFn::OtherDataTransfer => parse_other_data_transfer(bytes, inst),
            ParseFn::StringManipulation => parse_string_manipulation(bytes, inst),
            ParseFn::DirectWithinSegment => parse_direct_within_segment(bytes, inst),
            ParseFn::JumpDirectWithinSegmentShort => parse_jump_short(bytes, inst),
            ParseFn::IndirectWithinSegment => parse_indirect(bytes, inst),
            ParseFn::DirectIntersegment => parse_direct_intersegment(bytes, inst),
            ParseFn::IndirectIntersegment => parse_indirect(bytes, inst),
            ParseFn::ConditionalJump => parse_conditional_jump(bytes, inst),
            ParseFn::ReturnNoValue => parse_return_no_value(bytes, inst),
            ParseFn::ReturnWithValue => parse_return_with_value(bytes, inst),
            ParseFn::Interrupt => parse_interrupt(bytes, inst),
            ParseFn::ProcessorControl => parse_processor_control(bytes, inst),
            ParseFn::SegmentOverride => parse_segment_override(bytes, inst),
        }
    }
}

} // verus!
