//! What holds of every record: how rendering one moves the emitter on and
//! changes its labels, and that parsing looks at the bytes of the encoding
//! alone.
use vstd::prelude::*;
use crate::instructions::descriptions::{spec_resolve, Description, ParseFn, WriteFn};
use crate::instructions::instruction::{
    encoded_length,
    lemma_parse_bounds,
    retained_input,
    Instruction,
};
use crate::instructions::processor_control::names_segment;
use crate::writer::{Label, WriterView};

verus! {

/// Whether the state `after` is that of an emitter which stood between two
/// lines in the state `before` and has rendered a record of `length` bytes.
pub open spec fn advanced(before: WriterView, length: int, after: WriterView) -> bool {
    &&& after.current_index == before.current_index + length
    &&& after.next_index == before.next_index + length
    &&& after.current_instruction is None
    &&& after.verbose == before.verbose
}

impl Instruction {
    /// Rendering a record between two lines moves the emitter on by the
    /// length of the record, a prefix being one byte long: both counts of
    /// input bytes grow by that length, and the emitter stands between two
    /// lines again.
    pub proof fn lemma_write_advances(&self, view: WriterView)
        requires
            self.spec_can_write(view),
            view.current_instruction is None,
            self.is_prefix_record() ==> self.length == 1,
        ensures
            advanced(view, self.length as int, self.spec_write(view)),
    {
        match self.description.write_fn {
            WriteFn::Unimplemented => {},
            WriteFn::Typical => {},
            WriteFn::Immediate => {},
            WriteFn::MovImmediateToMemory => {},
            WriteFn::ArithmeticImmediate => {},
            WriteFn::MemoryOrRegister => {},
            WriteFn::OnlyRegister => {},
            WriteFn::Bare => {},
            WriteFn::Logic => {},
            WriteFn::TestImmediate => {},
            WriteFn::PushOrPop => {},
            WriteFn::InOutFixedPort => {},
            WriteFn::InOutVariablePort => {},
            WriteFn::ConditionalJump => {},
            WriteFn::DirectWithinSegment => {},
            WriteFn::DirectIntersegment => {},
            WriteFn::IndirectWithinSegment => {},
            WriteFn::IndirectIntersegment => {},
            WriteFn::ReturnWithValue => {},
            WriteFn::Interrupt => {},
            WriteFn::RepeatPrefix => {},
            WriteFn::LockPrefix => {},
            WriteFn::SegmentPrefix => {},
        }
    }

    /// The labels of an emitter in the state `view` after it has rendered
    /// the record: a prefix leaves them as they are, a line may write the
    /// header of the label that targets it, and a jump refers to its label
    /// besides.
    pub open spec fn labels_after(&self, view: WriterView) -> Map<usize, Label> {
        if self.is_jump_record() {
            view.start_instruction(*self).write_jump_displacement(self.disp).labels
        } else if self.is_prefix_record() || self.description.write_fn == WriteFn::Unimplemented {
            view.labels
        } else {
            view.start_instruction(*self).labels
        }
    }

    /// Rendering a record changes the labels as `labels_after` says.
    pub proof fn lemma_labels_after(&self, view: WriterView)
        ensures
            self.spec_write(view).labels == self.labels_after(view),
    {
        match self.description.write_fn {
            WriteFn::Typical => {},
            WriteFn::Immediate => {},
            WriteFn::MovImmediateToMemory => {},
            WriteFn::ArithmeticImmediate => {},
            WriteFn::MemoryOrRegister => {},
            WriteFn::OnlyRegister => {},
            WriteFn::Bare => {},
            WriteFn::Logic => {},
            WriteFn::TestImmediate => {},
            WriteFn::PushOrPop => {},
            WriteFn::InOutFixedPort => {},
            WriteFn::InOutVariablePort => {},
            WriteFn::ConditionalJump => {},
            WriteFn::DirectWithinSegment => {},
            WriteFn::DirectIntersegment => {},
            WriteFn::IndirectWithinSegment => {},
            WriteFn::IndirectIntersegment => {},
            WriteFn::ReturnWithValue => {},
            WriteFn::Interrupt => {},
            WriteFn::RepeatPrefix => {},
            WriteFn::LockPrefix => {},
            WriteFn::SegmentPrefix => {},
            WriteFn::Unimplemented => {},
        }
    }
}

/// The state of an emitter in the state `view` after it has rendered the
/// records `instructions`, one after the other.
pub open spec fn write_all(view: WriterView, instructions: Seq<Instruction>) -> WriterView
    decreases instructions.len(),
{
    if instructions.len() == 0 {
        view
    } else {
        instructions.last().spec_write(write_all(view, instructions.drop_last()))
    }
}

/// Whether an emitter in the state `view` can render the records
/// `instructions`, one after the other.
pub open spec fn can_write_all(view: WriterView, instructions: Seq<Instruction>) -> bool
    decreases instructions.len(),
{
    if instructions.len() == 0 {
        true
    } else {
        &&& can_write_all(view, instructions.drop_last())
        &&& instructions.last().spec_can_write(write_all(view, instructions.drop_last()))
    }
}

/// The sum of the lengths of `instructions`.
pub open spec fn total_length(instructions: Seq<Instruction>) -> int
    decreases instructions.len(),
{
    if instructions.len() == 0 {
        0
    } else {
        total_length(instructions.drop_last()) + instructions.last().length
    }
}

/// After an emitter that stood between two lines has rendered any number of
/// records, prefixes of one byte among them, its count of the input bytes
/// of finished instructions has grown by the sum of their lengths.
pub proof fn lemma_current_index_is_sum_of_lengths(
    view: WriterView,
    instructions: Seq<Instruction>,
)
    requires
        view.current_instruction is None,
        can_write_all(view, instructions),
        forall|i: int|
            0 <= i < instructions.len() && (#[trigger] instructions[i]).is_prefix_record()
                ==> instructions[i].length == 1,
    ensures
        advanced(view, total_length(instructions), write_all(view, instructions)),
    decreases instructions.len(),
{
    if instructions.len() > 0 {
        let front = instructions.drop_last();
        assert(forall|i: int| 0 <= i < front.len() ==> front[i] == instructions[i]);
        lemma_current_index_is_sum_of_lengths(view, front);
        instructions.last().lemma_write_advances(write_all(view, front));
    }
}

/// A record that was parsed is well formed and can be rendered: it is an
/// instruction, a prefix among them is one byte long, and a segment
/// override names a segment register.
pub proof fn lemma_parsed_record(bytes: Seq<u8>)
    ensures
        Instruction::spec_parse(bytes) matches Some(instruction) ==> {
            &&& instruction.wf()
            &&& 1 <= instruction.length <= bytes.len()
            &&& instruction.description.write_fn != WriteFn::Unimplemented
            &&& instruction.is_prefix_record() ==> instruction.length == 1
            &&& instruction.description.write_fn == WriteFn::SegmentPrefix ==> names_segment(
                instruction,
            )
        },
{
    if bytes.len() > 0 {
        lemma_parse_bounds(spec_resolve(bytes), bytes, Instruction::spec_empty());
    }
}

/// Whether `a` and `b` agree in their first `count` bytes.
pub open spec fn agree_up_to(a: Seq<u8>, b: Seq<u8>, count: int) -> bool {
    &&& count <= a.len()
    &&& count <= b.len()
    &&& forall|i: int| 0 <= i < count ==> a[i] == b[i]
}

/// A decoder looks at no byte behind the instruction that it decodes: of
/// bytes that agree with `a` in the bytes of the instruction it makes the
/// same record.
pub proof fn lemma_decoder_reads_only_the_encoding(
    description: Description,
    a: Seq<u8>,
    b: Seq<u8>,
    inst: Instruction,
)
    requires
        description.spec_parse(a, inst).length > 0,
        agree_up_to(a, b, description.spec_parse(a, inst).length as int),
    ensures
        description.spec_parse(b, inst) == description.spec_parse(a, inst),
{
    match description.parse_fn {
        ParseFn::Unknown => {},
        ParseFn::Typical(_) => {},
        ParseFn::Bare(_) => {},
        ParseFn::PushPopRegister(_) => {},
        ParseFn::PushPopSegmentRegister(_) => {},
        ParseFn::WordRegister(_) => {},
        ParseFn::ImmediateToAccumulator(_) => {},
        ParseFn::AsciiAdjust(_) => {},
        ParseFn::MovImmediateToMemory => {},
        ParseFn::MovImmediateToRegister => {},
        ParseFn::MovMemoryToAccumulator => {},
        ParseFn::MovToSegmentRegister => {},
        ParseFn::ArithmeticImmediate => {},
        ParseFn::TestImmediate => {},
        ParseFn::PushPopRegisterOrMemory => {},
        ParseFn::XchgRegisterWithAccumulator => {},
        ParseFn::InOutFixedPort => {},
        ParseFn::InOutVariablePort => {},
        ParseFn::LeaLdsLes => {},
        ParseFn::OtherDataTransfer => {},
        ParseFn::StringManipulation => {},
        ParseFn::DirectWithinSegment => {},
        ParseFn::JumpDirectWithinSegmentShort => {},
        ParseFn::IndirectWithinSegment => {},
        ParseFn::DirectIntersegment => {},
        ParseFn::IndirectIntersegment => {},
        ParseFn::ConditionalJump => {},
        ParseFn::ReturnNoValue => {},
        ParseFn::ReturnWithValue => {},
        ParseFn::Interrupt => {},
        ParseFn::ProcessorControl => {},
        ParseFn::SegmentOverride => {},
    }
}

/// The record of an instruction is made of the bytes of its encoding alone:
/// whatever follows an encoding of `k` bytes, the encoding is parsed as the
/// same record of length `k`.
pub proof fn lemma_parse_reads_only_the_encoding(a: Seq<u8>, b: Seq<u8>)
    requires
        encoded_length(a) > 0,
        agree_up_to(a, b, encoded_length(a)),
    ensures
        Instruction::spec_parse(b) == Instruction::spec_parse(a),
        encoded_length(b) == encoded_length(a),
{
    let length = encoded_length(a);
    let description = spec_resolve(a);
    assert(a[0] == b[0]);
    lemma_parse_bounds(description, a, Instruction::spec_empty());
    assert(spec_resolve(b) == description) by {
        if a.len() >= 2 && length >= 2 {
            assert(a[1] == b[1]);
        }
    }
    lemma_decoder_reads_only_the_encoding(description, a, b, Instruction::spec_empty());
    assert(retained_input(b, length) =~= retained_input(a, length));
}

} // verus!
