//! The record of one decoded instruction.
use vstd::prelude::*;
use crate::instructions::arithmetic::{
    spec_write_arithmetic_imm_to_register_memory,
    spec_write_only_register_instruction,
    write_arithmetic_imm_to_register_memory,
    write_only_register_instruction,
};
use crate::instructions::common::instruction_flags::{
    has_direction_flag,
    has_word_flag,
    spec_has_direction_flag,
    spec_has_word_flag,
};
use crate::instructions::common::{
    register_name,
    InstRegister,
    InstructionDataFields,
    RM,
    spec_write_bare_instruction,
    spec_write_immediate_instruction,
    spec_write_memory_or_register_instruction,
    spec_write_typical_instruction,
    write_bare_instruction,
    write_immediate_instruction,
    write_memory_or_register_instruction,
    write_typical_instruction,
};
use crate::instructions::control_transfer::{
    spec_write_direct_intersegment,
    spec_write_indirect_intersegment,
    spec_write_indirect_within_segment,
    spec_write_interrupt,
    spec_write_jump,
    spec_write_return_with_value,
    write_conditional_jump,
    write_direct_intersegment,
    write_direct_within_segment,
    write_indirect_intersegment,
    write_indirect_within_segment,
    write_interrupt,
    write_return_with_value,
};
use crate::instructions::data_transfer::{
    spec_write_in_out_fixed_port,
    spec_write_in_out_variable_port,
    write_in_out_fixed_port,
    write_in_out_variable_port,
};
use crate::instructions::descriptions::{resolve, spec_resolve, Description, ParseFn, WriteFn};
use crate::instructions::logic::{
    spec_write_logic_instruction,
    spec_write_test_immediate,
    write_logic_instruction,
    write_test_immediate,
};
use crate::instructions::mov::{spec_write_mov_immediate_to_memory, write_mov_immediate_to_memory};
use crate::instructions::opcode::Opcode;
use crate::instructions::processor_control::{
    names_segment,
    spec_write_lock,
    spec_write_segment_override,
    write_lock,
    write_segment_override,
};
use crate::instructions::push_pop::{spec_write_push_or_pop, write_push_or_pop};
use crate::instructions::strings::{spec_write_repeat, write_repeat};
use crate::writer::{Writer, WriterView};

verus! {

/// One decoded instruction: a record of fixed size that holds the decoded
/// fields and the raw bytes they were decoded from.
#[derive(Debug, Copy, Clone)]
pub struct Instruction {
    pub opcode: Opcode,
    /// The number of bytes of the encoding, 1 to 6; zero marks a record that
    /// is no instruction.
    pub length: u8,
    pub data_fields: InstructionDataFields,
    pub disp: i16,
    pub data: u16,
    pub flags: u8,
    pub register: InstRegister,
    pub description: Description,
    /// The first `length` bytes are those of the encoding.
    pub input: [u8; 6],
}

/// The byte at `index` if it is one of the first `length`, else zero.
pub open spec fn byte_or_zero(bytes: Seq<u8>, index: int, length: int) -> u8 {
    if index < length {
        bytes[index]
    } else {
        0
    }
}

/// The bytes that a record retains of `bytes`: the first `length` of them,
/// and zeros behind them up to six.
pub open spec fn retained_input(bytes: Seq<u8>, length: int) -> [u8; 6] {
    [
        byte_or_zero(bytes, 0, length),
        byte_or_zero(bytes, 1, length),
        byte_or_zero(bytes, 2, length),
        byte_or_zero(bytes, 3, length),
        byte_or_zero(bytes, 4, length),
        byte_or_zero(bytes, 5, length),
    ]
}

/// The fields that the decoder picked by the resolver makes of `bytes`, in
/// a record that has retained no bytes yet. Its length is zero if `bytes`
/// begin with no instruction; `bytes` must not be empty.
pub open spec fn spec_decode(bytes: Seq<u8>) -> Instruction {
    spec_resolve(bytes).spec_parse(bytes, Instruction::spec_empty())
}

/// The number of bytes of the instruction that `bytes` begin with; zero if
/// they are empty or begin with no instruction.
pub open spec fn encoded_length(bytes: Seq<u8>) -> int {
    if bytes.len() == 0 {
        0
    } else {
        spec_decode(bytes).length as int
    }
}

/// Whatever bytes a decoder is given, if only there is one, the record it
/// makes stays well formed, and its length is at most six and at most the
/// number of bytes.
pub proof fn lemma_parse_bounds(description: Description, bytes: Seq<u8>, inst: Instruction)
    requires
        inst.wf(),
        bytes.len() > 0,
    ensures
        description.spec_parse(bytes, inst).wf(),
        description.spec_parse(bytes, inst).length <= bytes.len(),
{
    let parsed = description.spec_parse(bytes, inst);
    match description.parse_fn {
        ParseFn::Unknown => {},
        ParseFn::Typical(_) => {},
        ParseFn::Bare(_) => {},
        ParseFn::PushPopRegister(_) => {},
        ParseFn::PushPopSegmentRegister(_) => {},
        ParseFn::WordRegister(_) => {},
        ParseFn::ImmediateToAccumulator(_) => {},
        ParseFn::AsciiAdjust(_) => {},
        ParseFn::MovImmediateToMemory => {},
        ParseFn::MovImmediateToRegister => {},
        ParseFn::MovMemoryToAccumulator => {},
        ParseFn::MovToSegmentRegister => {},
        ParseFn::ArithmeticImmediate => {},
        ParseFn::TestImmediate => {},
        ParseFn::PushPopRegisterOrMemory => {},
        ParseFn::XchgRegisterWithAccumulator => {},
        ParseFn::InOutFixedPort => {},
        ParseFn::InOutVariablePort => {},
        ParseFn::LeaLdsLes => {},
        ParseFn::OtherDataTransfer => {},
        ParseFn::StringManipulation => {},
        ParseFn::DirectWithinSegment => {},
        ParseFn::JumpDirectWithinSegmentShort => {},
        ParseFn::IndirectWithinSegment => {},
        ParseFn::DirectIntersegment => {},
        ParseFn::IndirectIntersegment => {},
        ParseFn::ConditionalJump => {},
        ParseFn::ReturnNoValue => {},
        ParseFn::ReturnWithValue => {},
        ParseFn::Interrupt => {},
        ParseFn::ProcessorControl => {},
        ParseFn::SegmentOverride => {},
    }
}

/// What a record retains are the bytes of its encoding, in their order.
pub proof fn lemma_retained_input(bytes: Seq<u8>, length: int)
    requires
        0 <= length <= 6,
        length <= bytes.len(),
    ensures
        retained_input(bytes, length)@.subrange(0, length) == bytes.subrange(0, length),
{
    assert(retained_input(bytes, length)@.subrange(0, length) =~= bytes.subrange(0, length));
}

impl Instruction {
    /// The record before anything is decoded into it: no instruction, of
    /// length zero, with `ax` for both operands.
    pub open spec fn spec_empty() -> Instruction {
        Instruction {
            opcode: Opcode::UNKNOWN,
            length: 0,
            data_fields: InstructionDataFields::spec_empty(),
            disp: 0,
            data: 0,
            flags: 0,
            register: InstRegister::Reg(0),
            description: Description::unimplemented(),
            input: [0u8, 0u8, 0u8, 0u8, 0u8, 0u8],
        }
    }

    /// The indices of the record are within their tables and its length is
    /// that of an encoding.
    pub open spec fn wf(self) -> bool {
        &&& self.length <= 6
        &&& self.register.wf()
        &&& self.data_fields.wf()
    }

    /// The source operand: the `r/m` operand when the direction flag is set,
    /// the register otherwise.
    pub open spec fn spec_get_source(&self) -> RM {
        if spec_has_direction_flag(self.flags) {
            self.data_fields.rm
        } else {
            RM::Reg(self.register)
        }
    }

    /// The destination operand: the register when the direction flag is set,
    /// the `r/m` operand otherwise.
    pub open spec fn spec_get_destination(&self) -> RM {
        if spec_has_direction_flag(self.flags) {
            RM::Reg(self.register)
        } else {
            self.data_fields.rm
        }
    }

    /// The record of the instruction that `bytes` begin with: the decoded
    /// fields, the descriptor that the resolver picked, and the bytes of the
    /// encoding retained. There is none if `bytes` are empty or begin with no
    /// instruction.
    pub open spec fn spec_parse(bytes: Seq<u8>) -> Option<Instruction> {
        if encoded_length(bytes) == 0 {
            None
        } else {
            let decoded = spec_decode(bytes);
            Some(
                Instruction {
                    description: spec_resolve(bytes),
                    input: retained_input(bytes, decoded.length as int),
                    ..decoded
                },
            )
        }
    }

    /// Whether the record can be rendered by an emitter in the state `view`.
    /// A record that is no instruction cannot; a jump must lead to an offset
    /// within `usize`; a segment override must name a segment register.
    pub open spec fn spec_can_write(&self, view: WriterView) -> bool {
        &&& view.accepts(*self)
        &&& match self.description.write_fn {
            WriteFn::Unimplemented => false,
            WriteFn::ConditionalJump | WriteFn::DirectWithinSegment => view.accepts_jump(*self),
            WriteFn::RepeatPrefix | WriteFn::LockPrefix => view.next_index < usize::MAX,
            WriteFn::SegmentPrefix => view.next_index < usize::MAX && names_segment(*self),
            _ => true,
        }
    }

    /// The state of an emitter in the state `view` after it has rendered the
    /// record.
    pub open spec fn spec_write(&self, view: WriterView) -> WriterView {
        match self.description.write_fn {
            WriteFn::Unimplemented => view,
            WriteFn::Typical => spec_write_typical_instruction(view, *self),
            WriteFn::Immediate => spec_write_immediate_instruction(view, *self),
            WriteFn::MovImmediateToMemory => spec_write_mov_immediate_to_memory(view, *self),
            WriteFn::ArithmeticImmediate => spec_write_arithmetic_imm_to_register_memory(
                view,
                *self,
            ),
            WriteFn::MemoryOrRegister => spec_write_memory_or_register_instruction(view, *self),
            WriteFn::OnlyRegister => spec_write_only_register_instruction(view, *self),
            WriteFn::Bare => spec_write_bare_instruction(view, *self),
            WriteFn::Logic => spec_write_logic_instruction(view, *self),
            WriteFn::TestImmediate => spec_write_test_immediate(view, *self),
            WriteFn::PushOrPop => spec_write_push_or_pop(view, *self),
            WriteFn::InOutFixedPort => spec_write_in_out_fixed_port(view, *self),
            WriteFn::InOutVariablePort => spec_write_in_out_variable_port(view, *self),
            WriteFn::ConditionalJump => spec_write_jump(view, *self),
            WriteFn::DirectWithinSegment => spec_write_jump(view, *self),
            WriteFn::DirectIntersegment => spec_write_direct_intersegment(view, *self),
            WriteFn::IndirectWithinSegment => spec_write_indirect_within_segment(view, *self),
            WriteFn::IndirectIntersegment => spec_write_indirect_intersegment(view, *self),
            WriteFn::ReturnWithValue => spec_write_return_with_value(view, *self),
            WriteFn::Interrupt => spec_write_interrupt(view, *self),
            WriteFn::RepeatPrefix => spec_write_repeat(view, *self),
            WriteFn::LockPrefix => spec_write_lock(view, *self),
            WriteFn::SegmentPrefix => spec_write_segment_override(view, *self),
        }
    }

    /// Whether the record is a prefix, which writes no line of its own.
    pub open spec fn is_prefix_record(&self) -> bool {
        self.description.write_fn == WriteFn::RepeatPrefix || self.description.write_fn
            == WriteFn::LockPrefix || self.description.write_fn == WriteFn::SegmentPrefix
    }

    /// Whether the record is rendered as a jump to a label.
    pub open spec fn is_jump_record(&self) -> bool {
        self.description.write_fn == WriteFn::ConditionalJump || self.description.write_fn
            == WriteFn::DirectWithinSegment
    }

    /// Decodes the instruction that `bytes` begin with. There is none if
    /// `bytes` are empty, begin with no instruction, or end before the
    /// instruction does.
    pub fn parse(bytes: &[u8]) -> (parsed: Option<Self>)
        ensures
            parsed == Self::spec_parse(bytes@),
            parsed matches Some(instruction) ==> {
                &&& instruction.wf()
                &&& 1 <= instruction.length <= 6
                &&& instruction.length == encoded_length(bytes@) <= bytes.len()
                &&& instruction.input@.subrange(0, instruction.length as int) == bytes@.subrange(
                    0,
                    instruction.length as int,
                )
            },
    {
        if bytes.len() == 0 {
            return None;
        }
        let mut instruction = Instruction::empty();
        let description = resolve(bytes);
        description.parse(bytes, &mut instruction);
        proof {
            lemma_parse_bounds(description, bytes@, Instruction::spec_empty());
        }
        if instruction.length == 0 {
            return None;
        }
        let length = instruction.length as usize;
        let mut i: usize = 0;
        while i < length
            invariant
                i <= length <= 6,
                length <= bytes.len(),
                instruction == (Instruction { input: instruction.input, ..spec_decode(bytes@) }),
                instruction.input@ == retained_input(bytes@, i as int)@,
            decreases length - i,
        {
            instruction.input[i] = bytes[i];
            i = i + 1;
            assert(instruction.input@ =~= retained_input(bytes@, i as int)@);
        }
        assert(instruction.input =~= retained_input(bytes@, length as int));
        proof {
            lemma_retained_input(bytes@, length as int);
        }
        instruction.description = description;
        Some(instruction)
    }

    /// Whether the record can be rendered by `writer`.
    pub fn can_write(&self, writer: &Writer) -> (can: bool)
        requires
            writer@.wf(),
        ensures
            can == self.spec_can_write(writer@),
    {
        let next: usize = writer.next_byte_index();
        let well_formed = self.length <= 6 && self.data_fields.mode < 4 && (match self.register {
            InstRegister::Reg(reg) => reg < 8,
            InstRegister::SegReg(reg) => reg < 4,
        }) && (match self.data_fields.rm {
            RM::Reg(InstRegister::Reg(reg)) => reg < 8,
            RM::Reg(InstRegister::SegReg(reg)) => reg < 4,
            RM::Eff(eff) => eff < 8,
        });
        if !well_formed || next > usize::MAX - self.length as usize {
            return false;
        }
        let end: usize = next + self.length as usize;
        match self.description.write_fn {
            WriteFn::Unimplemented => false,
            WriteFn::ConditionalJump | WriteFn::DirectWithinSegment => {
                if self.disp >= 0 {
                    end <= usize::MAX - self.disp as usize
                } else {
                    end >= crate::text::magnitude(self.disp) as usize
                }
            },
            WriteFn::RepeatPrefix | WriteFn::LockPrefix => next < usize::MAX,
            WriteFn::SegmentPrefix => next < usize::MAX && u8::from(self.register) < 4,
            _ => true,
        }
    }

    /// Renders the record: the line of an instruction is written, a prefix
    /// is kept for the instruction that follows.
    pub fn write(&self, writer: &mut Writer)
        requires
            self.spec_can_write(old(writer)@),
        ensures
            final(writer)@ == self.spec_write(old(writer)@),
            final(writer)@.wf(),
    {
        match self.description.write_fn {
            WriteFn::Unimplemented => {},
            WriteFn::Typical => write_typical_instruction(writer, self),
            WriteFn::Immediate => write_immediate_instruction(writer, self),
            WriteFn::MovImmediateToMemory => write_mov_immediate_to_memory(writer, self),
            WriteFn::ArithmeticImmediate => write_arithmetic_imm_to_register_memory(writer, self),
            WriteFn::MemoryOrRegister => write_memory_or_register_instruction(writer, self),
            WriteFn::OnlyRegister => write_only_register_instruction(writer, self),
            WriteFn::Bare => write_bare_instruction(writer, self),
            WriteFn::Logic => write_logic_instruction(writer, self),
            WriteFn::TestImmediate => write_test_immediate(writer, self),
            WriteFn::PushOrPop => write_push_or_pop(writer, self),
            WriteFn::InOutFixedPort => write_in_out_fixed_port(writer, self),
            WriteFn::InOutVariablePort => write_in_out_variable_port(writer, self),
            WriteFn::ConditionalJump => write_conditional_jump(writer, self),
            WriteFn::DirectWithinSegment => write_direct_within_segment(writer, self),
            WriteFn::DirectIntersegment => write_direct_intersegment(writer, self),
            WriteFn::IndirectWithinSegment => write_indirect_within_segment(writer, self),
            WriteFn::IndirectIntersegment => write_indirect_intersegment(writer, self),
            WriteFn::ReturnWithValue => write_return_with_value(writer, self),
            WriteFn::Interrupt => write_interrupt(writer, self),
            WriteFn::RepeatPrefix => write_repeat(writer, self),
            WriteFn::LockPrefix => write_lock(writer, self),
            WriteFn::SegmentPrefix => write_segment_override(writer, self),
        }
    }

    /// The record before anything is decoded into it.
    #[verifier::when_used_as_spec(spec_empty)]
    pub fn empty() -> (inst: Instruction)
        ensures
            inst == Self::spec_empty(),
    {
        Instruction {
            opcode: Opcode::UNKNOWN,
            length: 0,
            data_fields: InstructionDataFields::empty(),
            disp: 0,
            data: 0,
            flags: 0,
            register: InstRegister::Reg(0),
            description: Description::unimplemented(),
            input: [0u8, 0u8, 0u8, 0u8, 0u8, 0u8],
        }
    }

    /// The name of the register of the record, in the width of the
    /// instruction.
    pub fn source_string(&self) -> (name: &'static str)
        requires
            self.register.wf(),
        ensures
            name@ == self.register.name_for(spec_has_word_flag(self.flags)),
            name.is_ascii(),
    {
        register_name(self.register, has_word_flag(self.flags))
    }

    /// The name of the register that the `r/m` field selects, in the width
    /// of the instruction. The operand must be a register, not memory.
    pub fn destination_string(&self) -> (name: &'static str)
        requires
            self.data_fields.rm is Reg,
            self.data_fields.rm.wf(),
        ensures
            name@ == self.data_fields.rm->Reg_0.name_for(spec_has_word_flag(self.flags)),
            name.is_ascii(),
    {
        match self.data_fields.rm {
            RM::Reg(register) => register_name(register, has_word_flag(self.flags)),
            RM::Eff(_) => "",
        }
    }

    /// The source operand: the `r/m` operand when the direction flag is set,
    /// the register otherwise.
    #[verifier::when_used_as_spec(spec_get_source)]
    pub fn get_source(&self) -> (rm: RM)
        ensures
            rm == self.spec_get_source(),
    {
        if has_direction_flag(self.flags) {
            self.data_fields.rm
        } else {
            RM::Reg(self.register)
        }
    }

    /// The destination operand: the register when the direction flag is set,
    /// the `r/m` operand otherwise.
    #[verifier::when_used_as_spec(spec_get_destination)]
    pub fn get_destination(&self) -> (rm: RM)
        ensures
            rm == self.spec_get_destination(),
    {
        if has_direction_flag(self.flags) {
            RM::Reg(self.register)
        } else {
            self.data_fields.rm
        }
    }
}

} // verus!
