//! The headers of the labels in the text of a listing: every label has
//! its header in the text once if it is marked as inserted, and nowhere if
//! it is not; and every label that targets the start of a line written is
//! marked as inserted.
use vstd::prelude::*;
use crate::instructions::arithmetic::{
    spec_write_arithmetic_imm_to_register_memory,
    spec_write_only_register_instruction,
};
use crate::instructions::common::{
    spec_write_bare_instruction,
    spec_write_immediate_instruction,
    spec_write_memory_or_register_instruction,
    spec_write_sized_operand,
    spec_write_typical_instruction,
    RM,
};
use crate::instructions::control_transfer::{
    spec_write_direct_intersegment,
    spec_write_indirect_intersegment,
    spec_write_indirect_within_segment,
    spec_write_interrupt,
    spec_write_jump,
    spec_write_return_with_value,
};
use crate::instructions::common::{word_at, word_register_name};
use crate::instructions::data_transfer::spec_write_in_out;
use crate::instructions::descriptions::{spec_resolve, WriteFn};
use crate::instructions::instruction::{encoded_length, lemma_parse_bounds, Instruction};
use crate::instructions::logic::{
    shift_count_text,
    spec_write_logic_instruction,
    spec_write_test_immediate,
};
use crate::instructions::mov::spec_write_mov_immediate_to_memory;
use crate::instructions::opcode::Opcode;
use crate::instructions::push_pop::spec_write_push_or_pop;
use crate::text::{ascii, decimal, signed_decimal};
use crate::writer::headers::{
    ends_without_colon,
    header_stands_at,
    headers_owned,
    lemma_append_newline,
    lemma_append_plain,
    lemma_header_once,
    stands_once_at,
    lemma_decimal_quiet,
    lemma_hex_literal_quiet,
    lemma_names_quiet,
    lemma_operand_plain,
    lemma_signed_decimal_quiet,
    lemma_words_quiet,
    plain,
    quiet,
};
use crate::listing::{
    banner,
    has_header_if_labelled,
    is_line_start,
    lemma_labels_of_lines_have_headers,
    lemma_write_from_counts_bytes,
    spec_run,
    unparsed_text,
    warning,
    write_from,
};
use crate::writer::headers::lemma_splice_bytes;
use crate::writer::{
    immediate_text,
    Label,
    label_header,
    label_reference,
    lemma_last_starting_at,
    signed_data,
    size_text,
    WriterView,
};

verus! {

/// Whether an emitter in the state `view` can render the record `inst` as
/// a line with the headers in order: it stands between two lines, and the
/// text with the line fits into memory.
pub open spec fn line_fits(view: WriterView, inst: Instruction, written: WriterView) -> bool {
    &&& view.headers_in_order()
    &&& view.between_lines()
    &&& inst.wf()
    &&& written.buffer.len() <= usize::MAX
}

/// Whether the headers are in order in the state `written`, reached at the
/// end of a line.
pub open spec fn line_in_order(written: WriterView) -> bool {
    written.headers_in_order() && written.between_lines()
}

/// A piece without newline and colon, appended within a line, leaves the
/// headers in order.
proof fn lemma_append_quiet(view: WriterView, piece: Seq<u8>)
    requires
        view.headers_in_order(),
        quiet(piece),
        view.buffer.len() + piece.len() <= usize::MAX,
    ensures
        view.append(piece).headers_in_order(),
{
    view.lemma_append_in_order(piece);
}

/// The operand behind its size qualifier leaves the headers in order.
proof fn lemma_sized_operand_in_order(view: WriterView, inst: Instruction, rm: RM)
    requires
        view.headers_in_order(),
        rm.wf(),
        spec_write_sized_operand(view, inst, rm).buffer.len() <= usize::MAX,
    ensures
        spec_write_sized_operand(view, inst, rm).headers_in_order(),
{
    lemma_words_quiet();
    match rm {
        RM::Eff(_) => {
            lemma_append_quiet(view, size_text(inst));
            view.append(size_text(inst)).lemma_write_operand_in_order(inst, rm);
        },
        RM::Reg(_) => {
            view.lemma_write_operand_in_order(inst, rm);
        },
    }
}

/// A line of destination, comma and source leaves the headers in order.
proof fn lemma_typical_in_order(view: WriterView, inst: Instruction)
    requires
        line_fits(view, inst, spec_write_typical_instruction(view, inst)),
    ensures
        line_in_order(spec_write_typical_instruction(view, inst)),
{
    lemma_words_quiet();
    let started = view.start_instruction(inst);
    view.lemma_start_instruction_in_order(inst);
    let first = started.write_operand(inst, inst.spec_get_destination());
    started.lemma_write_operand_in_order(inst, inst.spec_get_destination());
    let separated = first.append(ascii(", "@));
    lemma_append_quiet(first, ascii(", "@));
    let second = separated.write_operand(inst, inst.spec_get_source());
    separated.lemma_write_operand_in_order(inst, inst.spec_get_source());
    second.lemma_end_line_in_order();
}

/// A line of destination, comma and immediate leaves the headers in order.
proof fn lemma_immediate_in_order(view: WriterView, inst: Instruction)
    requires
        line_fits(view, inst, spec_write_immediate_instruction(view, inst)),
    ensures
        line_in_order(spec_write_immediate_instruction(view, inst)),
{
    lemma_words_quiet();
    let started = view.start_instruction(inst);
    view.lemma_start_instruction_in_order(inst);
    let first = started.write_operand(inst, inst.spec_get_destination());
    started.lemma_write_operand_in_order(inst, inst.spec_get_destination());
    let separated = first.append(ascii(", "@));
    lemma_append_quiet(first, ascii(", "@));
    if inst.opcode == Opcode::MOV {
        lemma_hex_literal_quiet(inst.data as nat, 4);
        lemma_hex_literal_quiet(inst.data as nat, 2);
        lemma_append_quiet(separated, immediate_text(inst.data, inst));
        separated.append(immediate_text(inst.data, inst)).lemma_end_line_in_order();
    } else {
        lemma_signed_decimal_quiet(signed_data(inst));
        lemma_append_quiet(separated, signed_decimal(signed_data(inst)));
        separated.append(signed_decimal(signed_data(inst))).lemma_end_line_in_order();
    }
}

/// A `MOV` of an immediate to a register or memory operand leaves the headers
/// in order.
proof fn lemma_mov_immediate_to_memory_in_order(view: WriterView, inst: Instruction)
    requires
        line_fits(view, inst, spec_write_mov_immediate_to_memory(view, inst)),
    ensures
        line_in_order(spec_write_mov_immediate_to_memory(view, inst)),
{
    lemma_words_quiet();
    let started = view.start_instruction(inst);
    view.lemma_start_instruction_in_order(inst);
    let operand = spec_write_sized_operand(started, inst, inst.data_fields.rm);
    lemma_sized_operand_in_order(started, inst, inst.data_fields.rm);
    let separated = operand.append(ascii(", "@));
    lemma_append_quiet(operand, ascii(", "@));
    lemma_hex_literal_quiet(inst.data as nat, 4);
    lemma_hex_literal_quiet(inst.data as nat, 2);
    lemma_append_quiet(separated, immediate_text(inst.data, inst));
    separated.append(immediate_text(inst.data, inst)).lemma_end_line_in_order();
}

/// An arithmetic instruction with an immediate for a register or memory
/// operand leaves the headers in order.
proof fn lemma_arithmetic_immediate_in_order(view: WriterView, inst: Instruction)
    requires
        line_fits(view, inst, spec_write_arithmetic_imm_to_register_memory(view, inst)),
    ensures
        line_in_order(spec_write_arithmetic_imm_to_register_memory(view, inst)),
{
    lemma_words_quiet();
    let started = view.start_instruction(inst);
    view.lemma_start_instruction_in_order(inst);
    let operand = spec_write_sized_operand(started, inst, inst.data_fields.rm);
    lemma_sized_operand_in_order(started, inst, inst.data_fields.rm);
    let separated = operand.append(ascii(", "@));
    lemma_append_quiet(operand, ascii(", "@));
    lemma_hex_literal_quiet(inst.data as nat, 4);
    lemma_hex_literal_quiet(inst.data as nat, 2);
    lemma_append_quiet(separated, immediate_text(inst.data, inst));
    separated.append(immediate_text(inst.data, inst)).lemma_end_line_in_order();
}

/// A line with a single register or memory operand leaves the headers in
/// order.
proof fn lemma_memory_or_register_in_order(view: WriterView, inst: Instruction)
    requires
        line_fits(view, inst, spec_write_memory_or_register_instruction(view, inst)),
    ensures
        line_in_order(spec_write_memory_or_register_instruction(view, inst)),
{
    lemma_words_quiet();
    let started = view.start_instruction(inst);
    view.lemma_start_instruction_in_order(inst);
    let operand = spec_write_sized_operand(started, inst, inst.data_fields.rm);
    lemma_sized_operand_in_order(started, inst, inst.data_fields.rm);
    operand.lemma_end_line_in_order();
}

/// A line with a single register leaves the headers in order.
proof fn lemma_only_register_in_order(view: WriterView, inst: Instruction)
    requires
        line_fits(view, inst, spec_write_only_register_instruction(view, inst)),
    ensures
        line_in_order(spec_write_only_register_instruction(view, inst)),
{
    lemma_words_quiet();
    let started = view.start_instruction(inst);
    view.lemma_start_instruction_in_order(inst);
    lemma_names_quiet(inst.register.index());
    lemma_append_quiet(started, ascii(inst.register.name()));
    started.append(ascii(inst.register.name())).lemma_end_line_in_order();
}

/// A line with the mnemonic alone leaves the headers in order.
proof fn lemma_bare_in_order(view: WriterView, inst: Instruction)
    requires
        line_fits(view, inst, spec_write_bare_instruction(view, inst)),
    ensures
        line_in_order(spec_write_bare_instruction(view, inst)),
{
    lemma_words_quiet();
    let started = view.start_instruction(inst);
    view.lemma_start_instruction_in_order(inst);
    started.lemma_end_line_in_order();
}

/// A shift or rotate leaves the headers in order.
proof fn lemma_logic_in_order(view: WriterView, inst: Instruction)
    requires
        line_fits(view, inst, spec_write_logic_instruction(view, inst)),
    ensures
        line_in_order(spec_write_logic_instruction(view, inst)),
{
    lemma_words_quiet();
    let started = view.start_instruction(inst);
    view.lemma_start_instruction_in_order(inst);
    let operand = spec_write_sized_operand(started, inst, inst.data_fields.rm);
    lemma_sized_operand_in_order(started, inst, inst.data_fields.rm);
    let separated = operand.append(ascii(", "@));
    lemma_append_quiet(operand, ascii(", "@));
    lemma_append_quiet(separated, shift_count_text(inst));
    separated.append(shift_count_text(inst)).lemma_end_line_in_order();
}

/// A `TEST` with an immediate leaves the headers in order.
proof fn lemma_test_immediate_in_order(view: WriterView, inst: Instruction)
    requires
        line_fits(view, inst, spec_write_test_immediate(view, inst)),
    ensures
        line_in_order(spec_write_test_immediate(view, inst)),
{
    lemma_words_quiet();
    let started = view.start_instruction(inst);
    view.lemma_start_instruction_in_order(inst);
    let sized = match inst.data_fields.rm {
        RM::Eff(_) => started.append(size_text(inst)),
        RM::Reg(_) => started,
    };
    if inst.data_fields.rm is Eff {
        lemma_append_quiet(started, size_text(inst));
    }
    let operand = sized.write_operand(inst, inst.spec_get_destination());
    sized.lemma_write_operand_in_order(inst, inst.spec_get_destination());
    let separated = operand.append(ascii(", "@));
    lemma_append_quiet(operand, ascii(", "@));
    lemma_signed_decimal_quiet(signed_data(inst));
    lemma_append_quiet(separated, signed_decimal(signed_data(inst)));
    separated.append(signed_decimal(signed_data(inst))).lemma_end_line_in_order();
}

/// A `PUSH` or `POP` leaves the headers in order.
proof fn lemma_push_or_pop_in_order(view: WriterView, inst: Instruction)
    requires
        line_fits(view, inst, spec_write_push_or_pop(view, inst)),
    ensures
        line_in_order(spec_write_push_or_pop(view, inst)),
{
    lemma_words_quiet();
    let started = view.start_instruction(inst);
    view.lemma_start_instruction_in_order(inst);
    let sized = started.append(ascii("word "@));
    lemma_append_quiet(started, ascii("word "@));
    let operand = sized.write_operand(inst, inst.spec_get_destination());
    sized.lemma_write_operand_in_order(inst, inst.spec_get_destination());
    operand.lemma_end_line_in_order();
}

/// A jump to a label leaves the headers in order, also where the header of
/// the label is inserted into the text.
proof fn lemma_jump_in_order(view: WriterView, inst: Instruction)
    requires
        line_fits(view, inst, spec_write_jump(view, inst)),
    ensures
        line_in_order(spec_write_jump(view, inst)),
{
    lemma_words_quiet();
    let started = view.start_instruction(inst);
    view.lemma_start_instruction_in_order(inst);
    started.lemma_jump_in_order(inst.disp);
    started.write_jump_displacement(inst.disp).lemma_end_line_in_order();
}

/// A call or jump to a far target leaves the headers in order: the colon
/// between segment and offset stands before a digit.
proof fn lemma_direct_intersegment_in_order(view: WriterView, inst: Instruction)
    requires
        line_fits(view, inst, spec_write_direct_intersegment(view, inst)),
    ensures
        line_in_order(spec_write_direct_intersegment(view, inst)),
{
    lemma_words_quiet();
    let started = view.start_instruction(inst);
    view.lemma_start_instruction_in_order(inst);
    let segment = decimal(word_at(inst.input@, 3) as nat);
    let offset = decimal(word_at(inst.input@, 1) as nat);
    lemma_decimal_quiet(word_at(inst.input@, 3) as nat);
    lemma_decimal_quiet(word_at(inst.input@, 1) as nat);
    let target = segment + ascii(":"@) + offset;
    assert(plain(target)) by {
        assert forall|i: int| 0 <= i < target.len() implies target[i] != 10 by {
            if i < segment.len() {
                assert(target[i] == segment[i]);
            } else if i == segment.len() {
                assert(target[i] == 58);
            } else {
                assert(target[i] == offset[i - segment.len() - 1]);
            }
        }
        assert(target.last() == offset.last());
    }
    let written = started.append(segment).append(ascii(":"@)).append(offset);
    assert(written.buffer =~= started.append(target).buffer);
    assert(written == started.append(target));
    started.lemma_append_in_order(target);
    written.lemma_end_line_in_order();
}

/// A call or jump through an operand leaves the headers in order.
proof fn lemma_indirect_within_segment_in_order(view: WriterView, inst: Instruction)
    requires
        line_fits(view, inst, spec_write_indirect_within_segment(view, inst)),
    ensures
        line_in_order(spec_write_indirect_within_segment(view, inst)),
{
    lemma_words_quiet();
    let started = view.start_instruction(inst);
    view.lemma_start_instruction_in_order(inst);
    started.lemma_write_operand_in_order(inst, inst.data_fields.rm);
    started.write_operand(inst, inst.data_fields.rm).lemma_end_line_in_order();
}

/// A far call or jump through an operand leaves the headers in order.
proof fn lemma_indirect_intersegment_in_order(view: WriterView, inst: Instruction)
    requires
        line_fits(view, inst, spec_write_indirect_intersegment(view, inst)),
    ensures
        line_in_order(spec_write_indirect_intersegment(view, inst)),
{
    lemma_words_quiet();
    let started = view.start_instruction(inst);
    view.lemma_start_instruction_in_order(inst);
    let marked = started.append(ascii("far "@));
    lemma_append_quiet(started, ascii("far "@));
    marked.lemma_write_operand_in_order(inst, inst.data_fields.rm);
    marked.write_operand(inst, inst.data_fields.rm).lemma_end_line_in_order();
}

/// A return that pops bytes leaves the headers in order.
proof fn lemma_return_with_value_in_order(view: WriterView, inst: Instruction)
    requires
        line_fits(view, inst, spec_write_return_with_value(view, inst)),
    ensures
        line_in_order(spec_write_return_with_value(view, inst)),
{
    lemma_words_quiet();
    let started = view.start_instruction(inst);
    view.lemma_start_instruction_in_order(inst);
    lemma_decimal_quiet(inst.data as nat);
    lemma_append_quiet(started, decimal(inst.data as nat));
    started.append(decimal(inst.data as nat)).lemma_end_line_in_order();
}

/// An interrupt leaves the headers in order.
proof fn lemma_interrupt_in_order(view: WriterView, inst: Instruction)
    requires
        line_fits(view, inst, spec_write_interrupt(view, inst)),
    ensures
        line_in_order(spec_write_interrupt(view, inst)),
{
    lemma_words_quiet();
    let started = view.start_instruction(inst);
    view.lemma_start_instruction_in_order(inst);
    if inst.data % 256 != 0 {
        lemma_decimal_quiet(inst.data as nat);
        lemma_append_quiet(started, decimal(inst.data as nat));
        started.append(decimal(inst.data as nat)).lemma_end_line_in_order();
    } else {
        started.lemma_end_line_in_order();
    }
}

/// An `IN` or `OUT` with the port text `port` leaves the headers in order.
proof fn lemma_in_out_in_order(view: WriterView, inst: Instruction, port: Seq<u8>)
    requires
        line_fits(view, inst, spec_write_in_out(view, inst, port)),
        quiet(port),
    ensures
        line_in_order(spec_write_in_out(view, inst, port)),
{
    lemma_words_quiet();
    let destination = inst.spec_get_destination();
    let accumulator = view.operand_text(inst, destination);
    lemma_operand_plain(view, inst, destination);
    let used = view.after_operand(destination);
    assert(used.headers_in_order() && used.between_lines());
    let started = used.start_instruction(inst);
    used.lemma_start_instruction_in_order(inst);
    if inst.opcode == Opcode::IN {
        let first = started.append(accumulator);
        started.lemma_append_in_order(accumulator);
        let separated = first.append(ascii(", "@));
        lemma_append_quiet(first, ascii(", "@));
        lemma_append_quiet(separated, port);
        separated.append(port).lemma_end_line_in_order();
    } else {
        let first = started.append(port);
        lemma_append_quiet(started, port);
        let separated = first.append(ascii(", "@));
        lemma_append_quiet(first, ascii(", "@));
        separated.lemma_append_in_order(accumulator);
        separated.append(accumulator).lemma_end_line_in_order();
    }
}

/// Beginning a line takes no byte of the text away.
proof fn lemma_start_grows(view: WriterView, inst: Instruction)
    ensures
        view.start_instruction(inst).buffer.len() >= view.buffer.len(),
{
}

/// The operand of a jump takes no byte of the text away.
proof fn lemma_jump_grows(view: WriterView, displacement: i16)
    requires
        view.current_instruction is Some,
        view.current_instruction->0.start_file_index <= view.buffer.len(),
        forall|i: int|
            0 <= i < view.instructions.len() ==> (#[trigger] view.instructions[i]).start_file_index
                <= view.buffer.len(),
    ensures
        view.write_jump_displacement(displacement).buffer.len() >= view.buffer.len(),
{
    let target = view.jump_target(displacement) as usize;
    let label = view.label_of(target);
    let referenced = WriterView {
        buffer: view.buffer + label_reference(label.number),
        labels: view.labels.insert(target, label),
        ..view
    };
    lemma_last_starting_at(view.instructions, target as int);
    let at = referenced.insertion_point(target);
    assert(0 <= at <= referenced.buffer.len());
    lemma_splice_bytes(referenced.buffer, at, label_header(label.number));
}

/// Rendering a record takes no byte of the text away.
pub proof fn lemma_write_grows(inst: Instruction, view: WriterView)
    requires
        inst.spec_can_write(view),
    ensures
        inst.spec_write(view).buffer.len() >= view.buffer.len(),
{
    match inst.description.write_fn {
        WriteFn::Typical => {
            lemma_start_grows(view, inst);
        },
        WriteFn::Immediate => {
            lemma_start_grows(view, inst);
        },
        WriteFn::MovImmediateToMemory => {
            lemma_start_grows(view, inst);
        },
        WriteFn::ArithmeticImmediate => {
            lemma_start_grows(view, inst);
        },
        WriteFn::MemoryOrRegister => {
            lemma_start_grows(view, inst);
        },
        WriteFn::OnlyRegister => {
            lemma_start_grows(view, inst);
        },
        WriteFn::Bare => {
            lemma_start_grows(view, inst);
        },
        WriteFn::Logic => {
            lemma_start_grows(view, inst);
        },
        WriteFn::TestImmediate => {
            lemma_start_grows(view, inst);
        },
        WriteFn::PushOrPop => {
            lemma_start_grows(view, inst);
        },
        WriteFn::DirectIntersegment => {
            lemma_start_grows(view, inst);
        },
        WriteFn::IndirectWithinSegment => {
            lemma_start_grows(view, inst);
        },
        WriteFn::IndirectIntersegment => {
            lemma_start_grows(view, inst);
        },
        WriteFn::ReturnWithValue => {
            lemma_start_grows(view, inst);
        },
        WriteFn::Interrupt => {
            lemma_start_grows(view, inst);
        },
        WriteFn::InOutFixedPort | WriteFn::InOutVariablePort => {
            lemma_start_grows(view.after_operand(inst.spec_get_destination()), inst);
        },
        WriteFn::ConditionalJump | WriteFn::DirectWithinSegment => {
            let started = view.start_instruction(inst);
            lemma_start_grows(view, inst);
            lemma_started_records(view, inst);
            lemma_jump_grows(started, inst.disp);
        },
        WriteFn::RepeatPrefix | WriteFn::LockPrefix | WriteFn::SegmentPrefix => {},
        WriteFn::Unimplemented => {},
    }
}

/// After a line is begun, every instruction written stands within the
/// text.
proof fn lemma_started_records(view: WriterView, inst: Instruction)
    requires
        view.wf(),
    ensures
        ({
            let started = view.start_instruction(inst);
            &&& started.current_instruction is Some
            &&& started.current_instruction->0.start_file_index <= started.buffer.len()
            &&& forall|i: int|
                0 <= i < started.instructions.len() ==> (
                #[trigger] started.instructions[i]).start_file_index <= started.buffer.len()
        }),
{
    let started = view.start_instruction(inst);
    let labelled = view.write_pending_label();
    let commented = if labelled.verbose {
        labelled.write_instruction_input(inst)
    } else {
        labelled
    };
    let prefixed = commented.write_prefixes();
    assert forall|i: int| 0 <= i < started.instructions.len() implies (
    #[trigger] started.instructions[i]).start_file_index <= started.buffer.len() by {
        if i < view.instructions.len() {
            assert(started.instructions[i] == view.instructions[i]);
        }
    }
}

/// Rendering a record between two lines leaves the headers in order: the
/// headers in the text are again those of the labels marked as inserted,
/// each once.
pub proof fn lemma_write_in_order(inst: Instruction, view: WriterView)
    requires
        view.headers_in_order(),
        view.between_lines(),
        inst.spec_can_write(view),
        inst.spec_write(view).buffer.len() <= usize::MAX,
    ensures
        inst.spec_write(view).headers_in_order(),
        inst.spec_write(view).between_lines(),
{
    let written = inst.spec_write(view);
    match inst.description.write_fn {
        WriteFn::Typical => {
            lemma_typical_in_order(view, inst);
        },
        WriteFn::Immediate => {
            lemma_immediate_in_order(view, inst);
        },
        WriteFn::MovImmediateToMemory => {
            lemma_mov_immediate_to_memory_in_order(view, inst);
        },
        WriteFn::ArithmeticImmediate => {
            lemma_arithmetic_immediate_in_order(view, inst);
        },
        WriteFn::MemoryOrRegister => {
            lemma_memory_or_register_in_order(view, inst);
        },
        WriteFn::OnlyRegister => {
            lemma_only_register_in_order(view, inst);
        },
        WriteFn::Bare => {
            lemma_bare_in_order(view, inst);
        },
        WriteFn::Logic => {
            lemma_logic_in_order(view, inst);
        },
        WriteFn::TestImmediate => {
            lemma_test_immediate_in_order(view, inst);
        },
        WriteFn::PushOrPop => {
            lemma_push_or_pop_in_order(view, inst);
        },
        WriteFn::InOutFixedPort => {
            lemma_decimal_quiet(inst.data as nat);
            lemma_in_out_in_order(view, inst, decimal(inst.data as nat));
        },
        WriteFn::InOutVariablePort => {
            lemma_names_quiet(2);
            lemma_in_out_in_order(view, inst, ascii(word_register_name(2)));
        },
        WriteFn::ConditionalJump => {
            lemma_jump_in_order(view, inst);
        },
        WriteFn::DirectWithinSegment => {
            lemma_jump_in_order(view, inst);
        },
        WriteFn::DirectIntersegment => {
            lemma_direct_intersegment_in_order(view, inst);
        },
        WriteFn::IndirectWithinSegment => {
            lemma_indirect_within_segment_in_order(view, inst);
        },
        WriteFn::IndirectIntersegment => {
            lemma_indirect_intersegment_in_order(view, inst);
        },
        WriteFn::ReturnWithValue => {
            lemma_return_with_value_in_order(view, inst);
        },
        WriteFn::Interrupt => {
            lemma_interrupt_in_order(view, inst);
        },
        WriteFn::RepeatPrefix => {
            view.lemma_prefix_in_order();
            let recorded = view.push_prefix_instruction();
            assert(written.buffer == recorded.buffer);
            assert(written.labels == recorded.labels);
            assert(written.instructions == recorded.instructions);
            assert(written.current_instruction == recorded.current_instruction);
        },
        WriteFn::LockPrefix => {
            view.lemma_prefix_in_order();
            let recorded = view.push_prefix_instruction();
            assert(written.buffer == recorded.buffer);
            assert(written.labels == recorded.labels);
            assert(written.instructions == recorded.instructions);
            assert(written.current_instruction == recorded.current_instruction);
        },
        WriteFn::SegmentPrefix => {
            view.lemma_prefix_in_order();
            let recorded = view.push_prefix_instruction();
            assert(written.buffer == recorded.buffer);
            assert(written.labels == recorded.labels);
            assert(written.instructions == recorded.instructions);
            assert(written.current_instruction == recorded.current_instruction);
        },
        WriteFn::Unimplemented => {},
    }
}

/// Whether an instruction of `bytes` begins at `index` that an emitter in
/// the state `view` can write.
#[verifier::opaque]
spec fn can_step(view: WriterView, bytes: Seq<u8>, index: int) -> bool {
    let rest = bytes.subrange(index, bytes.len() as int);
    &&& 0 <= index < bytes.len()
    &&& encoded_length(rest) > 0
    &&& Instruction::spec_parse(rest)->0.spec_can_write(view)
}

/// The state of the emitter after it has written the instruction that
/// begins at `index` of `bytes`.
#[verifier::opaque]
spec fn step(view: WriterView, bytes: Seq<u8>, index: int) -> WriterView {
    Instruction::spec_parse(bytes.subrange(index, bytes.len() as int))->0.spec_write(view)
}

/// The offset behind the instruction that begins at `index` of `bytes`.
#[verifier::opaque]
spec fn step_index(bytes: Seq<u8>, index: int) -> int {
    index + encoded_length(bytes.subrange(index, bytes.len() as int))
}

/// Writing a stream is writing its first instruction and then the rest,
/// as long as there is an instruction that can be written.
proof fn lemma_write_from_steps(view: WriterView, bytes: Seq<u8>, index: int)
    ensures
        can_step(view, bytes, index) ==> write_from(view, bytes, index) == write_from(
            step(view, bytes, index),
            bytes,
            step_index(bytes, index),
        ) && index < step_index(bytes, index) <= bytes.len(),
        !can_step(view, bytes, index) ==> !(write_from(view, bytes, index) is Ok) || write_from(
            view,
            bytes,
            index,
        ) == Ok::<(WriterView, int), int>((view, index)),
{
    reveal(write_from);
    reveal(can_step);
    reveal(step);
    reveal(step_index);
    let rest = bytes.subrange(index, bytes.len() as int);
    if 0 <= index < bytes.len() {
        lemma_parse_bounds(spec_resolve(rest), rest, Instruction::spec_empty());
    }
}

/// A step takes no byte of the text away, and leaves the headers in order
/// if the text still fits into memory.
proof fn lemma_step_in_order(view: WriterView, bytes: Seq<u8>, index: int)
    requires
        can_step(view, bytes, index),
    ensures
        step(view, bytes, index).buffer.len() >= view.buffer.len(),
        view.headers_in_order() && view.between_lines() && step(view, bytes, index).buffer.len()
            <= usize::MAX ==> step(view, bytes, index).headers_in_order() && step(
            view,
            bytes,
            index,
        ).between_lines(),
{
    reveal(can_step);
    reveal(step);
    let inst = Instruction::spec_parse(bytes.subrange(index, bytes.len() as int))->0;
    lemma_write_grows(inst, view);
    if view.headers_in_order() && view.between_lines() && inst.spec_write(view).buffer.len()
        <= usize::MAX {
        lemma_write_in_order(inst, view);
    }
}

/// Writing the instructions of a stream takes no byte of the text away.
pub proof fn lemma_write_from_grows(view: WriterView, bytes: Seq<u8>, index: int)
    ensures
        write_from(view, bytes, index) matches Ok((after, stop)) ==> after.buffer.len()
            >= view.buffer.len(),
    decreases bytes.len() - index,
{
    lemma_write_from_steps(view, bytes, index);
    if can_step(view, bytes, index) {
        lemma_step_in_order(view, bytes, index);
        lemma_write_from_grows(step(view, bytes, index), bytes, step_index(bytes, index));
    }
}

/// Writing the instructions of a stream, from between two lines on, leaves
/// the headers in order, if only the text fits into memory.
pub proof fn lemma_write_from_in_order(view: WriterView, bytes: Seq<u8>, index: int)
    requires
        view.headers_in_order(),
        view.between_lines(),
    ensures
        write_from(view, bytes, index) matches Ok((after, stop)) ==> (after.buffer.len()
            <= usize::MAX ==> after.headers_in_order() && after.between_lines()),
    decreases bytes.len() - index,
{
    lemma_write_from_steps(view, bytes, index);
    if can_step(view, bytes, index) {
        let written = step(view, bytes, index);
        let next = step_index(bytes, index);
        lemma_step_in_order(view, bytes, index);
        lemma_write_from_grows(written, bytes, next);
        if write_from(written, bytes, next) is Ok && write_from(
            written,
            bytes,
            next,
        )->Ok_0.0.buffer.len() <= usize::MAX {
            lemma_write_from_in_order(written, bytes, next);
        }
    }
}

/// The bytes that were not parsed, in binary, hold neither newline nor
/// colon.
proof fn lemma_unparsed_quiet(bytes: Seq<u8>, from: int)
    ensures
        quiet(unparsed_text(bytes, from)),
        0 <= from < bytes.len() ==> unparsed_text(bytes, from).len() > 0,
    decreases bytes.len() - from,
{
    reveal_strlit(" ");
    if 0 <= from < bytes.len() {
        lemma_unparsed_quiet(bytes, from + 1);
    }
}

/// The banner of a listing under a name that holds no newline and does
/// not end in a colon holds no header, and ends a line.
pub proof fn lemma_banner_in_order(file_name: Seq<u8>, verbose: bool)
    requires
        plain(file_name),
        banner(file_name).len() <= usize::MAX,
    ensures
        WriterView::new(verbose).append(banner(file_name)).headers_in_order(),
        WriterView::new(verbose).append(banner(file_name)).between_lines(),
{
    reveal_strlit("; ");
    reveal_strlit("bits 16");
    reveal_strlit("\n");
    let labels = Map::<usize, Label>::empty();
    let empty = Seq::<u8>::empty();
    let newline = ascii("\n"@);
    assert(newline =~= seq![10u8]);
    assert(headers_owned(empty, labels));
    let first = empty + ascii("; "@);
    lemma_append_plain(empty, labels, ascii("; "@));
    let second = first + file_name;
    lemma_append_plain(first, labels, file_name);
    assert(ends_without_colon(second));
    let third = second + newline;
    lemma_append_newline(second, labels);
    assert(third =~= second.push(10u8));
    let fourth = third + newline;
    lemma_append_newline(third, labels);
    assert(fourth =~= third.push(10u8));
    let fifth = fourth + ascii("bits 16"@);
    lemma_append_plain(fourth, labels, ascii("bits 16"@));
    let sixth = fifth + newline;
    lemma_append_newline(fifth, labels);
    assert(sixth =~= fifth.push(10u8));
    let seventh = sixth + newline;
    lemma_append_newline(sixth, labels);
    assert(seventh =~= sixth.push(10u8));
    let view = WriterView::new(verbose).append(banner(file_name));
    assert(view.buffer =~= seventh);
    assert(view.labels =~= labels);
    assert(labels.len() == 0);
}

/// The warning about bytes that were not parsed, behind a text that ends
/// a line, brings no header.
pub proof fn lemma_warning_keeps_headers(
    text: Seq<u8>,
    labels: Map<usize, Label>,
    bytes: Seq<u8>,
    parsed: int,
)
    requires
        headers_owned(text, labels),
        0 <= parsed < bytes.len(),
    ensures
        headers_owned(text + warning(bytes, parsed), labels),
{
    reveal_strlit("; Warning: ");
    reveal_strlit(" bytes were not parsed. Bytes:");
    reveal_strlit("\n");
    lemma_decimal_quiet((bytes.len() - parsed) as nat);
    lemma_unparsed_quiet(bytes, parsed);
    let unparsed = unparsed_text(bytes, parsed);
    let line = ascii("; Warning: "@) + decimal((bytes.len() - parsed) as nat) + ascii(
        " bytes were not parsed. Bytes:"@,
    ) + unparsed;
    assert(plain(line)) by {
        assert(line.last() == unparsed.last());
        let head = ascii("; Warning: "@) + decimal((bytes.len() - parsed) as nat) + ascii(
            " bytes were not parsed. Bytes:"@,
        );
        assert forall|i: int| 0 <= i < head.len() implies head[i] != 10 by {}
        assert forall|i: int| 0 <= i < line.len() implies line[i] != 10 by {
            if i < head.len() {
                assert(line[i] == head[i]);
            } else {
                assert(line[i] == unparsed[i - head.len()]);
            }
        }
    }
    lemma_append_plain(text, labels, line);
    lemma_append_newline(text + line, labels);
    assert(text + warning(bytes, parsed) =~= (text + line).push(10u8));
}

/// The labels of a listing: those of the emitter that has written the
/// instructions of `bytes` behind the banner.
pub open spec fn listing_labels(file_name: Seq<u8>, bytes: Seq<u8>, verbose: bool) -> Map<
    usize,
    Label,
> {
    match write_from(WriterView::new(verbose).append(banner(file_name)), bytes, 0) {
        Ok((view, parsed)) => view.labels,
        Err(_) => Map::empty(),
    }
}

/// In the text of a listing, under a name that holds no newline and does
/// not end in a colon, every label has exactly one header or none: one, if
/// the label is marked as inserted, as is every label that targets the
/// start of a line of the listing; none, if it is not.
pub proof fn lemma_listing_headers(file_name: Seq<u8>, bytes: Seq<u8>, verbose: bool)
    requires
        plain(file_name),
    ensures
        spec_run(file_name, bytes, verbose) matches Ok((text, parsed)) ==> (text.len()
            <= usize::MAX ==> forall|target: usize| #[trigger]
            listing_labels(file_name, bytes, verbose).dom().contains(target) ==> {
                let label = listing_labels(file_name, bytes, verbose)[target];
                &&& is_line_start(bytes, 0, target as int) ==> label.inserted
                &&& label.inserted ==> exists|start: int|
                    stands_once_at(text, label.number, start)
                &&& !label.inserted ==> forall|start: int|
                    !header_stands_at(text, label.number, start)
            }),
{
    let start = WriterView::new(verbose).append(banner(file_name));
    if spec_run(file_name, bytes, verbose) is Ok {
        let text = spec_run(file_name, bytes, verbose)->Ok_0.0;
        let after = write_from(start, bytes, 0)->Ok_0.0;
        let parsed = write_from(start, bytes, 0)->Ok_0.1;
        if text.len() <= usize::MAX {
            lemma_write_from_grows(start, bytes, 0);
            lemma_banner_in_order(file_name, verbose);
            lemma_write_from_in_order(start, bytes, 0);
            lemma_write_from_counts_bytes(start, bytes, 0);
            lemma_labels_of_lines_have_headers(start, bytes, 0);
            if verbose && parsed < bytes.len() {
                lemma_warning_keeps_headers(after.buffer, after.labels, bytes, parsed);
            }
            assert forall|target: usize| #[trigger]
                after.labels.dom().contains(target) implies {
                let label = after.labels[target];
                &&& is_line_start(bytes, 0, target as int) ==> label.inserted
                &&& label.inserted ==> exists|start: int|
                    stands_once_at(text, label.number, start)
                &&& !label.inserted ==> forall|start: int|
                    !header_stands_at(text, label.number, start)
            } by {
                lemma_header_once(text, after.labels, target);
                assert(is_line_start(bytes, 0, target as int) ==> has_header_if_labelled(
                    after,
                    target,
                ));
            }
        }
    }
}

} // verus!
