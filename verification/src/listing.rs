//! The whole listing of a byte stream: the banner, the lines of the
//! instructions, and the warning about bytes that could not be parsed.
pub mod headers;

use vstd::prelude::*;
use vstd::string::StringSliceAdditionalSpecFns;
use crate::instructions::descriptions::spec_resolve;
use crate::instructions::instruction::{encoded_length, lemma_parse_bounds, Instruction};
use crate::instructions::lemmas::{advanced, lemma_parsed_record};
use crate::parser::Parser;
use crate::text::{ascii, binary_octet, decimal, lemma_ascii_bytes, push_binary_octet, push_decimal};
use crate::writer::{Writer, WriterOptions, WriterView};

verus! {

/// The listing of a byte stream.
#[derive(Debug)]
pub struct Listing {
    /// The text of the listing.
    pub text: Vec<u8>,
    /// The number of bytes that were parsed: the offset at which parsing
    /// stopped.
    pub parsed: usize,
}

/// Why no listing could be made.
#[derive(Debug, Copy, Clone, PartialEq, Eq, Structural)]
pub enum RunError {
    /// The input is empty.
    EmptyInput,
    /// The jump at the input offset `offset` leads before the start of the
    /// input or beyond every offset there is.
    JumpOutOfRange { offset: usize },
}

/// The lines that stand before the first instruction: the name of the
/// file as a comment, the width of the code, and an empty line behind each.
pub open spec fn banner(file_name: Seq<u8>) -> Seq<u8> {
    ascii("; "@) + file_name + ascii("\n"@) + ascii("\n"@) + ascii("bits 16"@) + ascii("\n"@)
        + ascii("\n"@)
}

/// The bytes of `bytes` from `from` on, each in binary behind a space.
pub open spec fn unparsed_text(bytes: Seq<u8>, from: int) -> Seq<u8>
    decreases bytes.len() - from,
{
    if from < 0 || from >= bytes.len() {
        Seq::empty()
    } else {
        ascii(" "@) + binary_octet(bytes[from]) + unparsed_text(bytes, from + 1)
    }
}

/// The comment line that tells how many bytes were not parsed, from the
/// offset `parsed` on, and shows them in binary.
pub open spec fn warning(bytes: Seq<u8>, parsed: int) -> Seq<u8> {
    ascii("; Warning: "@) + decimal((bytes.len() - parsed) as nat) + ascii(
        " bytes were not parsed. Bytes:"@,
    ) + unparsed_text(bytes, parsed) + ascii("\n"@)
}

/// The outcome of writing the instructions of `bytes` one after the other,
/// from the offset `index` on, with an emitter in the state `view`: the
/// state of the emitter and the offset at which parsing stopped, or the
/// offset of the first instruction that cannot be written.
#[verifier::opaque]
pub open spec fn write_from(view: WriterView, bytes: Seq<u8>, index: int) -> Result<
    (WriterView, int),
    int,
>
    decreases bytes.len() - index,
{
    let rest = bytes.subrange(index, bytes.len() as int);
    if index < 0 || index >= bytes.len() || encoded_length(rest) <= 0 {
        Ok((view, index))
    } else {
        let instruction = Instruction::spec_parse(rest)->0;
        if instruction.spec_can_write(view) {
            write_from(instruction.spec_write(view), bytes, index + encoded_length(rest))
        } else {
            Err(index)
        }
    }
}

/// When the instructions of a stream are written by an emitter that stood
/// between two lines, its count of the input bytes of finished instructions
/// grows by the number of bytes that were parsed: the sum of the lengths of
/// the instructions written.
pub proof fn lemma_write_from_counts_bytes(view: WriterView, bytes: Seq<u8>, index: int)
    requires
        view.current_instruction is None,
        0 <= index <= bytes.len(),
    ensures
        write_from(view, bytes, index) matches Ok((after, stop)) ==> {
            &&& index <= stop <= bytes.len()
            &&& advanced(view, stop - index, after)
        },
    decreases bytes.len() - index,
{
    reveal(write_from);
    let rest = bytes.subrange(index, bytes.len() as int);
    if index < bytes.len() && encoded_length(rest) > 0 {
        let instruction = Instruction::spec_parse(rest)->0;
        if instruction.spec_can_write(view) {
            lemma_parsed_record(rest);
            lemma_parse_bounds(spec_resolve(rest), rest, Instruction::spec_empty());
            instruction.lemma_write_advances(view);
            lemma_write_from_counts_bytes(
                instruction.spec_write(view),
                bytes,
                index + encoded_length(rest),
            );
        }
    }
}

/// The record of the instruction that begins at `offset` of `bytes`.
pub open spec fn instruction_at(bytes: Seq<u8>, offset: int) -> Option<Instruction> {
    if 0 <= offset < bytes.len() {
        Instruction::spec_parse(bytes.subrange(offset, bytes.len() as int))
    } else {
        None
    }
}

/// Whether a line begins at `offset` when the instructions of `bytes` are
/// written from `from` on: among the instructions that follow one another
/// from `from`, one that is no prefix begins at `offset`.
pub open spec fn is_line_start(bytes: Seq<u8>, from: int, offset: int) -> bool
    decreases bytes.len() - from,
{
    match instruction_at(bytes, from) {
        None => false,
        Some(instruction) => if instruction.length == 0 {
            false
        } else if offset == from {
            !instruction.is_prefix_record()
        } else {
            is_line_start(bytes, from + instruction.length, offset)
        },
    }
}

/// Whether the label of `target`, if there is one, has its header written.
pub open spec fn has_header_if_labelled(view: WriterView, target: usize) -> bool {
    view.labels.dom().contains(target) ==> view.labels[target].inserted
}

/// When a line has been written, the offset at which its instruction begins
/// has no label without a header: a label that waited for the line got its
/// header at the top of the line, and a label that the line itself refers
/// to, jumping to its own start, had its header inserted.
pub proof fn lemma_line_gets_its_header(instruction: Instruction, view: WriterView)
    requires
        instruction.spec_can_write(view),
        !instruction.is_prefix_record(),
        instruction.length > 0,
        view.current_instruction is None,
        view.current_index == view.next_index,
    ensures
        has_header_if_labelled(instruction.spec_write(view), view.current_index as usize),
{
    instruction.lemma_labels_after(view);
    let here = view.current_index as usize;
    let started = view.start_instruction(instruction);
    assert(has_header_if_labelled(started, here));
    if instruction.is_jump_record() {
        let target = started.jump_target(instruction.disp) as usize;
        assert(started.next_index == view.next_index + instruction.length);
        if target == here {
            assert(instruction.disp < 0);
        }
    }
}

/// A label of an offset that the emitter has passed never loses its header,
/// and no label without a header is made for such an offset: a jump that
/// leads back to it has the header inserted at once.
pub proof fn lemma_passed_offset_keeps_its_header(
    instruction: Instruction,
    view: WriterView,
    target: usize,
)
    requires
        instruction.spec_can_write(view),
        view.current_instruction is None,
        target < view.current_index,
        has_header_if_labelled(view, target),
    ensures
        has_header_if_labelled(instruction.spec_write(view), target),
{
    instruction.lemma_labels_after(view);
    let started = view.start_instruction(instruction);
    assert(has_header_if_labelled(started, target));
    assert(started.next_index == view.next_index + instruction.length);
}

/// The header of a label of an offset that the emitter has passed is still
/// written when the rest of the stream has been written.
pub proof fn lemma_passed_offset_keeps_its_header_to_the_end(
    view: WriterView,
    bytes: Seq<u8>,
    index: int,
    target: usize,
)
    requires
        view.current_instruction is None,
        view.current_index == index,
        0 <= index <= bytes.len(),
        target < index,
        has_header_if_labelled(view, target),
    ensures
        write_from(view, bytes, index) matches Ok((after, stop)) ==> has_header_if_labelled(
            after,
            target,
        ),
    decreases bytes.len() - index,
{
    reveal(write_from);
    let rest = bytes.subrange(index, bytes.len() as int);
    if index < bytes.len() && encoded_length(rest) > 0 {
        let instruction = Instruction::spec_parse(rest)->0;
        if instruction.spec_can_write(view) {
            lemma_parsed_record(rest);
            lemma_parse_bounds(spec_resolve(rest), rest, Instruction::spec_empty());
            instruction.lemma_write_advances(view);
            lemma_passed_offset_keeps_its_header(instruction, view, target);
            lemma_passed_offset_keeps_its_header_to_the_end(
                instruction.spec_write(view),
                bytes,
                index + encoded_length(rest),
                target,
            );
        }
    }
}

/// When the instructions of a stream have been written by an emitter that
/// stood between two lines at the offset `index`, every label that targets
/// the start of one of the lines written has its header written. Labels
/// that stay without a header target an offset at which no line begins: one
/// within an instruction, on a prefix, or behind the last instruction.
pub proof fn lemma_labels_of_lines_have_headers(view: WriterView, bytes: Seq<u8>, index: int)
    requires
        view.current_instruction is None,
        view.current_index == index,
        view.next_index == index,
        0 <= index <= bytes.len(),
    ensures
        write_from(view, bytes, index) matches Ok((after, stop)) ==> forall|target: usize|
            is_line_start(bytes, index, target as int) ==> #[trigger] has_header_if_labelled(
                after,
                target,
            ),
    decreases bytes.len() - index,
{
    reveal(write_from);
    let rest = bytes.subrange(index, bytes.len() as int);
    if index < bytes.len() && encoded_length(rest) > 0 {
        let instruction = Instruction::spec_parse(rest)->0;
        if instruction.spec_can_write(view) {
            let next = index + encoded_length(rest);
            let written = instruction.spec_write(view);
            lemma_parsed_record(rest);
            lemma_parse_bounds(spec_resolve(rest), rest, Instruction::spec_empty());
            instruction.lemma_write_advances(view);
            lemma_labels_of_lines_have_headers(written, bytes, next);
            if write_from(view, bytes, index) is Ok {
                let after = write_from(view, bytes, index)->Ok_0.0;
                assert forall|target: usize|
                    is_line_start(
                        bytes,
                        index,
                        target as int,
                    ) implies #[trigger] has_header_if_labelled(after, target) by {
                    if target as int == index {
                        lemma_line_gets_its_header(instruction, view);
                        lemma_passed_offset_keeps_its_header_to_the_end(
                            written,
                            bytes,
                            next,
                            target,
                        );
                    }
                }
            }
        }
    }
}

/// The outcome of `run`: the listing of `bytes` under the name `file_name`,
/// or the reason why there is none.
pub open spec fn spec_run(file_name: Seq<u8>, bytes: Seq<u8>, verbose: bool) -> Result<
    (Seq<u8>, int),
    RunError,
> {
    if bytes.len() == 0 {
        Err(RunError::EmptyInput)
    } else {
        match write_from(WriterView::new(verbose).append(banner(file_name)), bytes, 0) {
            Ok((view, parsed)) => Ok(
                (
                    if verbose && parsed < bytes.len() {
                        view.buffer + warning(bytes, parsed)
                    } else {
                        view.buffer
                    },
                    parsed,
                ),
            ),
            Err(offset) => Err(RunError::JumpOutOfRange { offset: offset as usize }),
        }
    }
}

/// Appends the bytes of `bytes` from `from` on, each in binary behind a
/// space.
fn push_unparsed(out: &mut Vec<u8>, bytes: &[u8], from: usize)
    requires
        from <= bytes.len(),
    ensures
        final(out)@ == old(out)@ + unparsed_text(bytes@, from as int),
    decreases bytes.len() - from,
{
    if from < bytes.len() {
        proof {
            reveal_strlit(" ");
        }
        out.push(32);
        push_binary_octet(out, bytes[from]);
        push_unparsed(out, bytes, from + 1);
        assert(out@ =~= old(out)@ + unparsed_text(bytes@, from as int));
    } else {
        assert(out@ =~= old(out)@ + unparsed_text(bytes@, from as int));
    }
}

/// The warning about the bytes of `bytes` that were not parsed.
fn make_warning(bytes: &[u8], parsed: usize) -> (text: Vec<u8>)
    requires
        parsed <= bytes.len(),
    ensures
        text@ == warning(bytes@, parsed as int),
{
    proof {
        reveal_strlit("; Warning: ");
        reveal_strlit(" bytes were not parsed. Bytes:");
        reveal_strlit("\n");
        lemma_ascii_bytes("; Warning: ");
        lemma_ascii_bytes(" bytes were not parsed. Bytes:");
    }
    let mut text: Vec<u8> = Vec::new();
    text.extend_from_slice("; Warning: ".as_bytes());
    push_decimal(&mut text, bytes.len() - parsed);
    text.extend_from_slice(" bytes were not parsed. Bytes:".as_bytes());
    push_unparsed(&mut text, bytes, parsed);
    text.push(10);
    assert(text@ =~= warning(bytes@, parsed as int));
    text
}

/// Whether the instruction that begins at `offset` of `bytes` is a jump
/// to a target before the start of the input, or beyond every offset
/// there is.
pub open spec fn jump_leads_out_of_range(bytes: Seq<u8>, offset: int) -> bool {
    &&& instruction_at(bytes, offset) matches Some(instruction)
    &&& instruction.is_jump_record()
    &&& !(0 <= offset + instruction.length + instruction.disp <= usize::MAX)
}

/// Whether an emitter in the state `view` stands between two lines, at the
/// offset `index` of the input.
pub open spec fn stands_at(view: WriterView, index: int) -> bool {
    &&& view.current_instruction is None
    &&& view.current_index == index
    &&& view.next_index == index
}

/// A record that was parsed and cannot be written, by an emitter that
/// stands between two lines at its offset, is a jump that leads out of
/// range.
proof fn lemma_refused_is_jump(view: WriterView, bytes: Seq<u8>, index: int)
    requires
        view.wf(),
        stands_at(view, index),
        0 <= index <= bytes.len() <= usize::MAX,
        instruction_at(bytes, index) matches Some(instruction) && !instruction.spec_can_write(
            view,
        ),
    ensures
        jump_leads_out_of_range(bytes, index),
{
    lemma_parsed_record(bytes.subrange(index, bytes.len() as int));
}

/// What the next step of writing a stream is, for an emitter that stands
/// between two lines at the offset `index`: nothing at the end of the
/// stream; else the next instruction is written, and the emitter stands
/// between two lines behind it; or it is a jump that leads out of range.
proof fn lemma_next_step(view: WriterView, bytes: Seq<u8>, index: int)
    requires
        view.wf(),
        stands_at(view, index),
        0 <= index <= bytes.len() <= usize::MAX,
    ensures
        match Instruction::spec_parse(bytes.subrange(index, bytes.len() as int)) {
            None => write_from(view, bytes, index) == Ok::<(WriterView, int), int>((view, index)),
            Some(instruction) => if instruction.spec_can_write(view) {
                &&& write_from(view, bytes, index) == write_from(
                    instruction.spec_write(view),
                    bytes,
                    index + instruction.length,
                )
                &&& stands_at(instruction.spec_write(view), index + instruction.length)
            } else {
                &&& write_from(view, bytes, index) == Err::<(WriterView, int), int>(index)
                &&& jump_leads_out_of_range(bytes, index)
            },
        },
{
    reveal(write_from);
    let rest = bytes.subrange(index, bytes.len() as int);
    lemma_parsed_record(rest);
    if Instruction::spec_parse(rest) is Some {
        let instruction = Instruction::spec_parse(rest)->0;
        if instruction.spec_can_write(view) {
            instruction.lemma_write_advances(view);
        } else {
            lemma_refused_is_jump(view, bytes, index);
        }
    } else {
        assert(rest.len() == 0 ==> index >= bytes.len());
    }
}

/// Writes the instruction at the cursor of `parser`, if there is one, and
/// tells whether it did; the error is the offset of a jump that leads out
/// of range.
fn write_next(parser: &mut Parser, writer: &mut Writer) -> (written: Result<bool, usize>)
    requires
        old(parser)@.wf(),
        old(parser)@.bytes.len() <= usize::MAX,
        old(writer)@.wf(),
        stands_at(old(writer)@, old(parser)@.index),
    ensures
        final(parser)@.wf(),
        final(parser)@.bytes == old(parser)@.bytes,
        final(writer)@.wf(),
        written is Ok ==> stands_at(final(writer)@, final(parser)@.index),
        written is Err ==> jump_leads_out_of_range(old(parser)@.bytes, old(parser)@.index),
        match written {
            Ok(true) => {
                &&& final(parser)@.index > old(parser)@.index
                &&& write_from(old(writer)@, old(parser)@.bytes, old(parser)@.index) == write_from(
                    final(writer)@,
                    old(parser)@.bytes,
                    final(parser)@.index,
                )
            },
            Ok(false) => {
                &&& final(parser)@ == old(parser)@
                &&& final(writer)@ == old(writer)@
                &&& write_from(old(writer)@, old(parser)@.bytes, old(parser)@.index) == Ok::<
                    (WriterView, int),
                    int,
                >((old(writer)@, old(parser)@.index))
            },
            Err(offset) => {
                &&& offset == old(parser)@.index
                &&& write_from(old(writer)@, old(parser)@.bytes, old(parser)@.index) == Err::<
                    (WriterView, int),
                    int,
                >(offset as int)
            },
        },
{
    proof {
        lemma_next_step(writer@, parser@.bytes, parser@.index);
    }
    let offset = parser.position();
    match parser.next() {
        Some(instruction) => {
            if !instruction.can_write(writer) {
                return Err(offset);
            }
            instruction.write(writer);
            Ok(true)
        },
        None => Ok(false),
    }
}

/// Makes the listing of `bytes`: the banner with `file_name`, then the line
/// of every instruction up to the end of the input or to the first bytes
/// that begin with no instruction. A verbose listing ends with a warning if
/// bytes are left over.
pub fn run(file_name: &str, bytes: &[u8], writer_options: WriterOptions) -> (outcome: Result<
    Listing,
    RunError,
>)
    ensures
        match outcome {
            Ok(listing) => spec_run(file_name.spec_bytes(), bytes@, writer_options.verbose) == Ok::<
                (Seq<u8>, int),
                RunError,
            >((listing.text@, listing.parsed as int)),
            Err(error) => spec_run(file_name.spec_bytes(), bytes@, writer_options.verbose) == Err::<
                (Seq<u8>, int),
                RunError,
            >(error),
        },
        outcome matches Err(RunError::JumpOutOfRange { offset }) ==> jump_leads_out_of_range(
            bytes@,
            offset as int,
        ),
{
    let verbose = writer_options.verbose;
    let mut parser = match Parser::build(bytes) {
        Ok(parser) => parser,
        Err(_) => {
            return Err(RunError::EmptyInput);
        },
    };
    let mut writer = Writer::new(writer_options);
    proof {
        reveal_strlit("bits 16");
        reveal_strlit("; ");
        reveal_strlit("\n");
    }
    writer.write_comment(file_name).end_line().write_str("bits 16").end_line().end_line();
    let ghost start = WriterView::new(verbose).append(banner(file_name.spec_bytes()));
    assert(writer@.buffer =~= start.buffer);
    assert(writer@ == start);
    loop
        invariant
            bytes.len() > 0,
            start == WriterView::new(verbose).append(banner(file_name.spec_bytes())),
            verbose == writer_options.verbose,
            parser@.wf(),
            parser@.bytes == bytes@,
            writer@.wf(),
            stands_at(writer@, parser@.index),
            write_from(start, bytes@, 0) == write_from(writer@, bytes@, parser@.index),
        ensures
            write_from(start, bytes@, 0) == Ok::<(WriterView, int), int>(
                (writer@, parser@.index),
            ),
        decreases bytes.len() - parser@.index,
    {
        match write_next(&mut parser, &mut writer) {
            Ok(true) => {},
            Ok(false) => {
                break ;
            },
            Err(offset) => {
                return Err(RunError::JumpOutOfRange { offset });
            },
        }
    }
    let parsed = parser.position();
    if verbose && parsed < bytes.len() {
        let warning = make_warning(bytes, parsed);
        writer.write(warning.as_slice());
    }
    Ok(Listing { text: writer.into_bytes(), parsed })
}

} // verus!
