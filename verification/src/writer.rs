//! The emitter: it renders instruction records as lines of NASM source in an
//! in-memory buffer, carries prefixes over to the instruction that follows
//! them, and gives the targets of relative jumps labels, which it inserts
//! into text already written where the target lies behind.
//!
//! The state of a [`Writer`] is described by its view, a [`WriterView`]. Every
//! operation of the writer is stated as a function on views, so that the
//! text a sequence of operations produces can be computed from the contracts
//! alone.
pub mod headers;

use std::collections::HashMap;
use vstd::prelude::*;
use vstd::string::StringSliceAdditionalSpecFns;
use crate::instructions::common::{
    effective_address_name,
    effective_address_str,
    register_name,
    segment_register_name,
    segment_register_str,
    InstRegister,
    RM,
};
use crate::instructions::common::instruction_flags::{has_word_flag, spec_has_word_flag};
use crate::instructions::instruction::Instruction;
use crate::text::{
    ascii,
    binary_octet,
    decimal,
    hex_literal,
    lemma_ascii_bytes,
    push_binary_octet,
    push_decimal,
    push_hex_literal,
    push_sign_and_decimal,
    push_signed_decimal,
    magnitude,
    sign_and_decimal,
    signed_decimal,
};

verus! {

/// Where an instruction that was written stands: in the input and in the
/// output.
#[derive(Debug, Copy, Clone)]
pub struct WrittenInstruction {
    /// The offset of the instruction's first byte in the input.
    pub start_instruction_index: usize,
    /// The offset in the output at which the instruction's line began when
    /// it was written, or behind the label that was since inserted there.
    pub start_file_index: usize,
    pub length: u8,
}

/// The label of a jump target.
#[derive(Debug, Copy, Clone)]
pub struct Label {
    pub number: usize,
    /// Whether the label's header line has been written.
    pub inserted: bool,
}

/// How the emitter writes.
#[derive(Debug, Copy, Clone)]
pub struct WriterOptions {
    /// Whether each instruction is preceded by a comment that shows its bytes.
    pub verbose: bool,
}

/// The prefixes that wait for the next instruction. `repeat` is the prefix
/// byte or zero; `segment` is the index of a segment register or `0xff`.
#[derive(Debug, Copy, Clone)]
pub struct WriterContext {
    repeat: u8,
    lock: bool,
    segment: u8,
}

/// The value of `segment` when no segment override is pending.
pub const NO_SEGMENT: u8 = 0xff;

/// The emitter. Its state is its view, a [`WriterView`].
pub struct Writer {
    file_buffer: Vec<u8>,
    next_instruction_byte_index: usize,
    current_instruction_byte_index: usize,
    instruction_buffer: Vec<WrittenInstruction>,
    label_map: HashMap<usize, Label>,
    current_instruction: Option<WrittenInstruction>,
    options: WriterOptions,
    context: WriterContext,
}

/// The state of a [`Writer`].
pub struct WriterView {
    /// The text written so far.
    pub buffer: Seq<u8>,
    /// The number of input bytes of all instructions started so far.
    pub next_index: int,
    /// The number of input bytes of all instructions finished so far: the
    /// offset in the input of the instruction that is written next.
    pub current_index: int,
    /// Every instruction and prefix written so far, in order.
    pub instructions: Seq<WrittenInstruction>,
    /// The labels, by the input offset of their target.
    pub labels: Map<usize, Label>,
    /// The instruction whose line is being written, if any.
    pub current_instruction: Option<WrittenInstruction>,
    pub verbose: bool,
    /// The pending repeat prefix byte, or zero.
    pub repeat: u8,
    /// Whether a lock prefix is pending.
    pub lock: bool,
    /// The index of the pending segment override, or `NO_SEGMENT`.
    pub segment: u8,
}

/// The text that refers to the label `number`.
pub open spec fn label_reference(number: usize) -> Seq<u8> {
    ascii("loc_"@) + decimal(number as nat)
}

/// The header line of the label `number`.
pub open spec fn label_header(number: usize) -> Seq<u8> {
    label_reference(number) + ascii(":\n"@)
}

/// `text` with `inserted` put in at offset `at`.
pub open spec fn splice(text: Seq<u8>, at: int, inserted: Seq<u8>) -> Seq<u8> {
    text.subrange(0, at) + inserted + text.subrange(at, text.len() as int)
}

/// Where `record` stands after `length` bytes were inserted into the
/// output at the offset `at`: behind them, if it stood at `at` or behind
/// it, or else where it stood.
pub open spec fn moved_behind(
    record: WrittenInstruction,
    at: int,
    length: int,
) -> WrittenInstruction {
    if record.start_file_index >= at {
        WrittenInstruction {
            start_file_index: (record.start_file_index + length) as usize,
            ..record
        }
    } else {
        record
    }
}

/// The index of the last of `instructions` that starts at the input offset
/// `target`, if there is one.
pub open spec fn last_starting_at(instructions: Seq<WrittenInstruction>, target: int) -> Option<int>
    decreases instructions.len(),
{
    if instructions.len() == 0 {
        None
    } else if instructions.last().start_instruction_index == target {
        Some(instructions.len() - 1)
    } else {
        last_starting_at(instructions.drop_last(), target)
    }
}

/// What `last_starting_at` finds is the greatest index of an instruction that
/// starts at `target`; it finds nothing only if there is none.
pub proof fn lemma_last_starting_at(instructions: Seq<WrittenInstruction>, target: int)
    ensures
        match last_starting_at(instructions, target) {
            Some(i) => {
                &&& 0 <= i < instructions.len()
                &&& instructions[i].start_instruction_index == target
                &&& forall|j: int|
                    i < j < instructions.len() ==> (
                    #[trigger] instructions[j]).start_instruction_index != target
            },
            None => forall|j: int|
                0 <= j < instructions.len() ==> #[trigger] instructions[j].start_instruction_index
                    != target,
        },
    decreases instructions.len(),
{
    if instructions.len() > 0 && instructions.last().start_instruction_index != target {
        let rest = instructions.drop_last();
        lemma_last_starting_at(rest, target);
        assert(forall|j: int| 0 <= j < rest.len() ==> rest[j] == instructions[j]);
    }
}

/// The text of a pending segment override before a memory operand.
pub open spec fn segment_override_text(segment: u8) -> Seq<u8> {
    if segment != NO_SEGMENT {
        ascii(segment_register_name(segment)) + ascii(":"@)
    } else {
        Seq::empty()
    }
}

/// Whether the memory operand `effective` of `instruction` is a direct
/// address: the form 110 in memory mode.
pub open spec fn is_direct_address(instruction: Instruction, effective: u8) -> bool {
    effective == 6 && instruction.data_fields.mode == 0
}

/// The text of the memory operand `effective` of `instruction`: the direct
/// address in brackets, or the bracketed address form with the displacement
/// behind its sign where it is not zero.
pub open spec fn memory_operand_text(instruction: Instruction, effective: u8) -> Seq<u8> {
    if is_direct_address(instruction, effective) {
        ascii("["@) + signed_decimal(instruction.disp as int) + ascii("]"@)
    } else if instruction.disp != 0 {
        ascii(effective_address_name(effective)) + sign_and_decimal(instruction.disp as int)
            + ascii("]"@)
    } else {
        ascii(effective_address_name(effective)) + ascii("]"@)
    }
}

/// The text of the size qualifier of `instruction`.
pub open spec fn size_text(instruction: Instruction) -> Seq<u8> {
    if spec_has_word_flag(instruction.flags) {
        ascii("word "@)
    } else {
        ascii("byte "@)
    }
}

/// The text of `value` as an immediate of `instruction`: a hexadecimal
/// literal of four digits for a word, of two for a byte.
pub open spec fn immediate_text(value: u16, instruction: Instruction) -> Seq<u8> {
    if spec_has_word_flag(instruction.flags) {
        hex_literal(value as nat, 4)
    } else {
        hex_literal(value as nat, 2)
    }
}

/// The immediate of `instruction` read as a signed number of its width.
pub open spec fn signed_data(instruction: Instruction) -> int {
    if spec_has_word_flag(instruction.flags) {
        if instruction.data < 32768 {
            instruction.data as int
        } else {
            instruction.data - 65536
        }
    } else {
        let low = instruction.data % 256;
        if low < 128 {
            low as int
        } else {
            low - 256
        }
    }
}

/// The comment line that shows a byte in binary, with the space behind it.
pub open spec fn octet_text(byte: u8) -> Seq<u8> {
    binary_octet(byte) + ascii(" "@)
}

/// The binary text of the first `count` bytes of `input`, each with a space
/// behind it.
pub open spec fn octets_text(input: Seq<u8>, count: nat) -> Seq<u8>
    decreases count,
{
    if count == 0 {
        Seq::empty()
    } else {
        octets_text(input, (count - 1) as nat) + octet_text(input[count - 1])
    }
}

/// The opcode byte of the segment override prefix of segment `segment`.
pub open spec fn segment_prefix_byte(segment: u8) -> u8 {
    (0x26 + 8 * segment) as u8
}

impl WriterView {
    /// The invariant of the emitter.
    pub open spec fn wf(self) -> bool {
        &&& 0 <= self.current_index <= self.next_index <= usize::MAX
        &&& self.segment == NO_SEGMENT || self.segment < 4
        &&& self.labels.dom().finite()
        &&& forall|i: int|
            0 <= i < self.instructions.len() ==> {
                &&& (#[trigger] self.instructions[i]).start_instruction_index <= self.current_index
                &&& self.instructions[i].start_file_index <= self.buffer.len()
            }
        &&& self.current_instruction matches Some(current) ==> {
            &&& current.start_file_index <= self.buffer.len()
            &&& self.current_index + current.length <= self.next_index
        }
        &&& self.labels_numbered()
    }

    /// The labels carry the numbers from zero up to their count, each once.
    pub open spec fn labels_numbered(self) -> bool {
        &&& forall|target: usize| #[trigger]
            self.labels.dom().contains(target) ==> self.labels[target].number < self.labels.len()
        &&& forall|a: usize, b: usize|
            #![trigger self.labels[a], self.labels[b]]
            self.labels.dom().contains(a) && self.labels.dom().contains(b)
                && self.labels[a].number == self.labels[b].number ==> a == b
    }

    /// Whether the line of `instruction` can be begun: the emitter and the
    /// record are well formed, and the count of input bytes stays within
    /// `usize`.
    pub open spec fn accepts(self, instruction: Instruction) -> bool {
        &&& self.wf()
        &&& instruction.wf()
        &&& self.next_index + instruction.length <= usize::MAX
    }

    /// Whether the line of `instruction`, a jump by its displacement, can be
    /// written: the target, counted from the end of the instruction, is an
    /// offset within `usize`.
    pub open spec fn accepts_jump(self, instruction: Instruction) -> bool {
        &&& self.accepts(instruction)
        &&& 0 <= self.next_index + instruction.length + instruction.disp <= usize::MAX
    }

    /// The state of a new emitter.
    pub open spec fn new(verbose: bool) -> WriterView {
        WriterView {
            buffer: Seq::empty(),
            next_index: 0,
            current_index: 0,
            instructions: Seq::empty(),
            labels: Map::empty(),
            current_instruction: None,
            verbose,
            repeat: 0,
            lock: false,
            segment: NO_SEGMENT,
        }
    }

    /// `text` is added at the end of the output.
    pub open spec fn append(self, text: Seq<u8>) -> WriterView {
        WriterView { buffer: self.buffer + text, ..self }
    }

    /// The line ends: a newline is written, and the instruction that was
    /// being written, if any, counts as finished. A segment override that
    /// the instruction has not used expires with it.
    pub open spec fn end_line(self) -> WriterView {
        WriterView {
            buffer: self.buffer.push(10u8),
            current_index: match self.current_instruction {
                Some(current) => self.current_index + current.length,
                None => self.current_index,
            },
            current_instruction: None,
            segment: match self.current_instruction {
                Some(_) => NO_SEGMENT,
                None => self.segment,
            },
            ..self
        }
    }

    /// A prefix byte is recorded as an instruction of one byte that writes
    /// no text.
    pub open spec fn push_prefix_instruction(self) -> WriterView {
        WriterView {
            instructions: self.instructions.push(
                WrittenInstruction {
                    start_instruction_index: self.current_index as usize,
                    start_file_index: self.buffer.len() as usize,
                    length: 1,
                },
            ),
            current_index: self.current_index + 1,
            next_index: self.next_index + 1,
            ..self
        }
    }

    /// The repeat prefix `byte` is recorded and waits for the next
    /// instruction.
    pub open spec fn set_repeat_prefix(self, byte: u8) -> WriterView {
        WriterView { repeat: byte, ..self.push_prefix_instruction() }
    }

    /// A lock prefix is recorded and waits for the next instruction.
    pub open spec fn set_lock_prefix(self) -> WriterView {
        WriterView { lock: true, ..self.push_prefix_instruction() }
    }

    /// An override by the segment register `segment` is recorded and waits
    /// for the next memory operand.
    pub open spec fn set_segment_prefix(self, segment: u8) -> WriterView {
        WriterView { segment, ..self.push_prefix_instruction() }
    }

    /// The header of the label that targets the current input offset is
    /// written, if there is such a label and its header is not written yet.
    pub open spec fn write_pending_label(self) -> WriterView {
        let target = self.current_index as usize;
        if self.labels.dom().contains(target) && !self.labels[target].inserted {
            let label = self.labels[target];
            WriterView {
                buffer: self.buffer + label_header(label.number),
                labels: self.labels.insert(target, Label { inserted: true, ..label }),
                ..self
            }
        } else {
            self
        }
    }

    /// The text of the comment that shows the bytes of `instruction` behind
    /// those of the pending prefixes, without the newline.
    pub open spec fn input_comment(self, instruction: Instruction) -> Seq<u8> {
        ascii("; "@) + (if self.segment != NO_SEGMENT {
            octet_text(segment_prefix_byte(self.segment))
        } else {
            Seq::empty()
        }) + (if self.lock {
            octet_text(0xf0)
        } else {
            Seq::empty()
        }) + (if self.repeat != 0 {
            octet_text(self.repeat)
        } else {
            Seq::empty()
        }) + octets_text(instruction.input@, instruction.length as nat)
    }

    /// The comment that shows the bytes of `instruction` is written as a
    /// line of its own.
    pub open spec fn write_instruction_input(self, instruction: Instruction) -> WriterView {
        self.append(self.input_comment(instruction)).end_line()
    }

    /// The pending lock and repeat prefixes are written and are pending no
    /// longer.
    pub open spec fn write_prefixes(self) -> WriterView {
        let locked = if self.lock {
            WriterView { lock: false, ..self.append(ascii("lock "@)) }
        } else {
            self
        };
        if locked.repeat != 0 {
            WriterView { repeat: 0, ..locked.append(ascii("rep "@)) }
        } else {
            locked
        }
    }

    /// The line of `instruction` begins: the pending label, the comment
    /// with the instruction's bytes if the emitter is verbose, the pending
    /// lock and repeat prefixes, then the mnemonic and a space. The
    /// instruction is recorded with the place of its mnemonic in the output.
    pub open spec fn start_instruction(self, instruction: Instruction) -> WriterView {
        let labelled = self.write_pending_label();
        let commented = if labelled.verbose {
            labelled.write_instruction_input(instruction)
        } else {
            labelled
        };
        let prefixed = commented.write_prefixes();
        let written = WrittenInstruction {
            start_instruction_index: prefixed.current_index as usize,
            start_file_index: prefixed.buffer.len() as usize,
            length: instruction.length,
        };
        WriterView {
            buffer: prefixed.buffer + ascii(instruction.opcode.mnemonic()) + ascii(" "@),
            instructions: prefixed.instructions.push(written),
            current_instruction: Some(written),
            next_index: prefixed.next_index + instruction.length,
            ..prefixed
        }
    }

    /// The text of the operand `rm` of `instruction`: the name of a
    /// register in the instruction's width, or a memory operand behind the
    /// pending segment override.
    pub open spec fn operand_text(self, instruction: Instruction, rm: RM) -> Seq<u8> {
        match rm {
            RM::Reg(register) => ascii(register.name_for(spec_has_word_flag(instruction.flags))),
            RM::Eff(effective) => segment_override_text(self.segment) + memory_operand_text(
                instruction,
                effective,
            ),
        }
    }

    /// The state after the text of the operand `rm` was made: a memory
    /// operand uses up the pending segment override.
    pub open spec fn after_operand(self, rm: RM) -> WriterView {
        match rm {
            RM::Reg(_) => self,
            RM::Eff(_) => WriterView { segment: NO_SEGMENT, ..self },
        }
    }

    /// The operand `rm` of `instruction` is written.
    pub open spec fn write_operand(self, instruction: Instruction, rm: RM) -> WriterView {
        self.after_operand(rm).append(self.operand_text(instruction, rm))
    }

    /// The input offset a jump by `displacement` leads to, counted from the
    /// end of the instruction being written.
    pub open spec fn jump_target(self, displacement: i16) -> int {
        self.next_index + displacement
    }

    /// The label of `target`: the one it has, or a new one that carries the
    /// number of labels given out so far.
    pub open spec fn label_of(self, target: usize) -> Label {
        if self.labels.dom().contains(target) {
            self.labels[target]
        } else {
            Label { number: self.labels.len() as usize, inserted: false }
        }
    }

    /// Whether a jump by `displacement` has the header of its label inserted
    /// into the text already written: it leads backwards, and the header is
    /// not written yet.
    pub open spec fn inserts_label(self, displacement: i16) -> bool {
        displacement < 0 && !self.label_of(self.jump_target(displacement) as usize).inserted
    }

    /// The offset in the output at which the header of a label for `target`
    /// is inserted: the start of the last instruction written that starts
    /// at `target`, or else that of the instruction being written.
    pub open spec fn insertion_point(self, target: usize) -> int {
        match last_starting_at(self.instructions, target as int) {
            Some(i) => self.instructions[i].start_file_index as int,
            None => self.current_instruction->0.start_file_index as int,
        }
    }

    /// The header of `label` is inserted before the instruction at `target`
    /// and the label is marked as inserted. Every instruction that stands
    /// at the place of the header or behind it moves behind it by the
    /// length of the header.
    pub open spec fn insert_label(self, target: usize, label: Label) -> WriterView {
        let header = label_header(label.number);
        let at = self.insertion_point(target);
        WriterView {
            buffer: splice(self.buffer, at, header),
            instructions: Seq::new(
                self.instructions.len(),
                |i: int| moved_behind(self.instructions[i], at, header.len() as int),
            ),
            current_instruction: match self.current_instruction {
                Some(current) => Some(moved_behind(current, at, header.len() as int)),
                None => None,
            },
            labels: self.labels.insert(target, Label { inserted: true, ..label }),
            ..self
        }
    }

    /// The operand of a jump by `displacement` is written: a reference to
    /// the label of its target, which gets a new label if it has none. For a
    /// jump backwards whose label has no header yet, the header is inserted.
    pub open spec fn write_jump_displacement(self, displacement: i16) -> WriterView {
        let target = self.jump_target(displacement) as usize;
        let label = self.label_of(target);
        let referenced = WriterView {
            buffer: self.buffer + label_reference(label.number),
            labels: self.labels.insert(target, label),
            ..self
        };
        if displacement >= 0 || label.inserted {
            referenced
        } else {
            referenced.insert_label(target, label)
        }
    }
}

impl View for Writer {
    type V = WriterView;

    closed spec fn view(&self) -> WriterView {
        WriterView {
            buffer: self.file_buffer@,
            next_index: self.next_instruction_byte_index as int,
            current_index: self.current_instruction_byte_index as int,
            instructions: self.instruction_buffer@,
            labels: self.label_map@,
            current_instruction: self.current_instruction,
            verbose: self.options.verbose,
            repeat: self.context.repeat,
            lock: self.context.lock,
            segment: self.context.segment,
        }
    }
}

/// Appends the bytes of an ASCII string.
fn push_ascii(out: &mut Vec<u8>, s: &str)
    requires
        s.is_ascii(),
    ensures
        final(out)@ == old(out)@ + ascii(s@),
{
    proof {
        lemma_ascii_bytes(s);
    }
    out.extend_from_slice(s.as_bytes());
    assert(out@ =~= old(out)@ + ascii(s@));
}

/// Appends a byte in binary and a space.
fn push_octet(out: &mut Vec<u8>, byte: u8)
    ensures
        final(out)@ == old(out)@ + octet_text(byte),
{
    proof {
        reveal_strlit(" ");
    }
    push_binary_octet(out, byte);
    push_ascii(out, " ");
    assert(out@ =~= old(out)@ + octet_text(byte));
}

/// Appends the reference to the label `number`.
fn push_label_reference(out: &mut Vec<u8>, number: usize)
    ensures
        final(out)@ == old(out)@ + label_reference(number),
{
    proof {
        reveal_strlit("loc_");
    }
    push_ascii(out, "loc_");
    push_decimal(out, number);
    assert(out@ =~= old(out)@ + label_reference(number));
}

/// The header line of the label `number`.
fn make_label_header(number: usize) -> (header: Vec<u8>)
    ensures
        header@ == label_header(number),
{
    let mut header: Vec<u8> = Vec::new();
    proof {
        reveal_strlit(":\n");
    }
    push_label_reference(&mut header, number);
    push_ascii(&mut header, ":\n");
    assert(header@ =~= label_header(number));
    header
}

impl Writer {
    /// A new emitter, which has written nothing.
    pub fn new(options: WriterOptions) -> (writer: Self)
        ensures
            writer@ == WriterView::new(options.verbose),
            writer@.wf(),
    {
        let writer = Self {
            file_buffer: Vec::new(),
            next_instruction_byte_index: 0,
            current_instruction_byte_index: 0,
            instruction_buffer: Vec::new(),
            label_map: HashMap::new(),
            current_instruction: None,
            options,
            context: WriterContext { repeat: 0, lock: false, segment: NO_SEGMENT },
        };
        assert(writer@.labels =~= Map::empty());
        assert(writer@.buffer =~= Seq::empty());
        assert(writer@.instructions =~= Seq::empty());
        writer
    }

    fn push_prefix_instruction(&mut self)
        requires
            old(self)@.wf(),
            old(self)@.next_index < usize::MAX,
        ensures
            final(self)@ == old(self)@.push_prefix_instruction(),
            final(self)@.wf(),
    {
        self.instruction_buffer.push(
            WrittenInstruction {
                start_instruction_index: self.current_instruction_byte_index,
                start_file_index: self.file_buffer.len(),
                length: 1,
            },
        );
        self.current_instruction_byte_index += 1;
        self.next_instruction_byte_index += 1;
    }

    /// Records the repeat prefix `byte` for the next instruction.
    pub fn set_repeat_prefix(&mut self, byte: u8)
        requires
            old(self)@.wf(),
            old(self)@.next_index < usize::MAX,
        ensures
            final(self)@ == old(self)@.set_repeat_prefix(byte),
            final(self)@.wf(),
    {
        self.push_prefix_instruction();
        self.context.repeat = byte;
    }

    /// Records a lock prefix for the next instruction.
    pub fn set_lock_prefix(&mut self)
        requires
            old(self)@.wf(),
            old(self)@.next_index < usize::MAX,
        ensures
            final(self)@ == old(self)@.set_lock_prefix(),
            final(self)@.wf(),
    {
        self.push_prefix_instruction();
        self.context.lock = true;
    }

    /// Records an override by the segment register `segment` for the next
    /// memory operand.
    pub fn set_segment_prefix(&mut self, segment: u8)
        requires
            old(self)@.wf(),
            old(self)@.next_index < usize::MAX,
            segment < 4 || segment == NO_SEGMENT,
        ensures
            final(self)@ == old(self)@.set_segment_prefix(segment),
            final(self)@.wf(),
    {
        self.push_prefix_instruction();
        self.context.segment = segment;
    }

    /// The comment that shows the bytes of `instruction` behind those of
    /// the pending prefixes, without the newline.
    fn make_input_comment(&self, instruction: &Instruction) -> (text: Vec<u8>)
        requires
            self@.wf(),
            instruction.length <= 6,
        ensures
            text@ == self@.input_comment(*instruction),
    {
        proof {
            reveal_strlit("; ");
        }
        let mut text: Vec<u8> = Vec::new();
        push_ascii(&mut text, "; ");
        if self.context.segment != NO_SEGMENT {
            push_octet(&mut text, 0x26 + 8 * self.context.segment);
        }
        if self.context.lock {
            push_octet(&mut text, 0xf0);
        }
        if self.context.repeat != 0 {
            push_octet(&mut text, self.context.repeat);
        }
        let ghost prefix = text@;
        let mut i: u8 = 0;
        while i < instruction.length
            invariant
                i <= instruction.length <= 6,
                text@ == prefix + octets_text(instruction.input@, i as nat),
            decreases instruction.length - i,
        {
            push_octet(&mut text, instruction.input[i as usize]);
            i = i + 1;
            assert(text@ =~= prefix + octets_text(instruction.input@, i as nat));
        }
        assert(text@ =~= self@.input_comment(*instruction));
        text
    }

    fn write_instruction_input(&mut self, instruction: &Instruction)
        requires
            old(self)@.wf(),
            instruction.length <= 6,
        ensures
            final(self)@ == old(self)@.write_instruction_input(*instruction),
            final(self)@.wf(),
    {
        let comment = self.make_input_comment(instruction);
        self.write(comment.as_slice()).end_line();
    }

    /// Begins the line of `instruction`.
    pub fn start_instruction(&mut self, instruction: &Instruction) -> (writer: &mut Self)
        requires
            old(self)@.wf(),
            old(self)@.next_index + instruction.length <= usize::MAX,
            old(self)@.verbose ==> instruction.length <= 6,
        ensures
            writer@ == old(self)@.start_instruction(*instruction),
            writer@.wf(),
            *final(self) == *final(writer),
    {
        proof {
            reveal_strlit("lock ");
            reveal_strlit("rep ");
            reveal_strlit(" ");
        }
        let pending = match self.label_map.get(&self.current_instruction_byte_index) {
            Some(label) => if label.inserted {
                None
            } else {
                Some(*label)
            },
            None => None,
        };
        if let Some(label) = pending {
            let header = make_label_header(label.number);
            self.file_buffer.extend_from_slice(header.as_slice());
            self.label_map.insert(
                self.current_instruction_byte_index,
                Label { number: label.number, inserted: true },
            );
            proof {
                assert(self.file_buffer@ =~= old(self)@.buffer + label_header(label.number));
                lemma_label_marked(old(self)@, self.current_instruction_byte_index);
            }
        }
        assert(self@ == old(self)@.write_pending_label());
        if self.options.verbose {
            self.write_instruction_input(instruction);
        }
        if self.context.lock {
            push_ascii(&mut self.file_buffer, "lock ");
            self.context.lock = false;
        }
        if self.context.repeat != 0 {
            push_ascii(&mut self.file_buffer, "rep ");
            self.context.repeat = 0;
        }
        let written_instruction = WrittenInstruction {
            start_instruction_index: self.current_instruction_byte_index,
            start_file_index: self.file_buffer.len(),
            length: instruction.length,
        };
        self.instruction_buffer.push(written_instruction);
        push_ascii(&mut self.file_buffer, instruction.opcode.get_mnemonic());
        push_ascii(&mut self.file_buffer, " ");
        self.current_instruction = Some(written_instruction);
        self.next_instruction_byte_index += instruction.length as usize;
        assert(self@.buffer =~= old(self)@.start_instruction(*instruction).buffer);
        self
    }

    /// Writes one byte.
    pub fn write_byte(&mut self, byte: u8) -> (writer: &mut Self)
        requires
            old(self)@.wf(),
        ensures
            writer@ == old(self)@.append(seq![byte]),
            writer@.wf(),
            *final(self) == *final(writer),
    {
        self.file_buffer.push(byte);
        assert(self.file_buffer@ =~= old(self)@.buffer + seq![byte]);
        self
    }

    /// Writes `bytes` as they are.
    pub fn write(&mut self, bytes: &[u8]) -> (writer: &mut Self)
        requires
            old(self)@.wf(),
        ensures
            writer@ == old(self)@.append(bytes@),
            writer@.wf(),
            *final(self) == *final(writer),
    {
        self.file_buffer.extend_from_slice(bytes);
        assert(self.file_buffer@ =~= old(self)@.buffer + bytes@);
        self
    }

    /// Writes the bytes of `string`.
    pub fn write_str(&mut self, string: &str) -> (writer: &mut Self)
        requires
            old(self)@.wf(),
        ensures
            writer@ == old(self)@.append(string.spec_bytes()),
            string.is_ascii() ==> writer@ == old(self)@.append(ascii(string@)),
            writer@.wf(),
            *final(self) == *final(writer),
    {
        proof {
            if string.is_ascii() {
                lemma_ascii_bytes(string);
            }
        }
        self.file_buffer.extend_from_slice(string.as_bytes());
        assert(self.file_buffer@ =~= old(self)@.buffer + string.spec_bytes());
        self
    }

    /// Writes the comma and the space between two operands.
    pub fn write_comma_separator(&mut self) -> (writer: &mut Self)
        requires
            old(self)@.wf(),
        ensures
            writer@ == old(self)@.append(ascii(", "@)),
            writer@.wf(),
            *final(self) == *final(writer),
    {
        proof {
            reveal_strlit(", ");
        }
        push_ascii(&mut self.file_buffer, ", ");
        self
    }

    /// Writes `comment` as a comment line.
    pub fn write_comment(&mut self, comment: &str) -> (writer: &mut Self)
        requires
            old(self)@.wf(),
        ensures
            writer@ == old(self)@.append(ascii("; "@) + comment.spec_bytes() + ascii("\n"@)),
            writer@.wf(),
            *final(self) == *final(writer),
    {
        proof {
            reveal_strlit("; ");
            reveal_strlit("\n");
        }
        push_ascii(&mut self.file_buffer, "; ");
        self.file_buffer.extend_from_slice(comment.as_bytes());
        push_ascii(&mut self.file_buffer, "\n");
        assert(self.file_buffer@ =~= old(self)@.buffer + (ascii("; "@) + comment.spec_bytes()
            + ascii("\n"@)));
        self
    }

    /// Writes `value` as an immediate of the width of `instruction`.
    pub fn write_with_w_flag(&mut self, value: u16, instruction: &Instruction) -> (writer:
        &mut Self)
        requires
            old(self)@.wf(),
        ensures
            writer@ == old(self)@.append(immediate_text(value, *instruction)),
            writer@.wf(),
            *final(self) == *final(writer),
    {
        if has_word_flag(instruction.flags) {
            push_hex_literal(&mut self.file_buffer, value, 4);
        } else {
            push_hex_literal(&mut self.file_buffer, value, 2);
        }
        self
    }

    /// Writes the size qualifier of `instruction`.
    pub fn write_size(&mut self, instruction: &Instruction) -> (writer: &mut Self)
        requires
            old(self)@.wf(),
        ensures
            writer@ == old(self)@.append(size_text(*instruction)),
            writer@.wf(),
            *final(self) == *final(writer),
    {
        proof {
            reveal_strlit("word ");
            reveal_strlit("byte ");
        }
        if has_word_flag(instruction.flags) {
            push_ascii(&mut self.file_buffer, "word ");
        } else {
            push_ascii(&mut self.file_buffer, "byte ");
        }
        self
    }

    /// Writes the size qualifier of `instruction` and `value` as an
    /// immediate of that size.
    pub fn write_with_size(&mut self, value: u16, instruction: &Instruction) -> (writer: &mut Self)
        requires
            old(self)@.wf(),
        ensures
            writer@ == old(self)@.append(size_text(*instruction)).append(
                immediate_text(value, *instruction),
            ),
            writer@.wf(),
            *final(self) == *final(writer),
    {
        self.write_size(instruction).write_with_w_flag(value, instruction)
    }

    /// Writes the immediate of `instruction` as a signed decimal number of
    /// the instruction's width.
    pub fn write_signed_data(&mut self, instruction: &Instruction) -> (writer: &mut Self)
        requires
            old(self)@.wf(),
        ensures
            writer@ == old(self)@.append(signed_decimal(signed_data(*instruction))),
            writer@.wf(),
            *final(self) == *final(writer),
    {
        let data: u16 = instruction.data;
        let value: i16 = if has_word_flag(instruction.flags) {
            if data < 32768 {
                data as i16
            } else {
                (data as i32 - 65536) as i16
            }
        } else {
            let low: u16 = data % 256;
            if low < 128 {
                low as i16
            } else {
                (low as i16) - 256
            }
        };
        push_signed_decimal(&mut self.file_buffer, value);
        self
    }

    fn register_to_str(&self, instruction: &Instruction, register: InstRegister) -> (name:
        &'static str)
        requires
            register.wf(),
        ensures
            name@ == register.name_for(spec_has_word_flag(instruction.flags)),
            name.is_ascii(),
    {
        register_name(register, has_word_flag(instruction.flags))
    }

    /// The opening of a memory operand: the bracket with the direct
    /// address, or the bracket with the address form.
    fn effective_to_string(&self, instruction: &Instruction, effective: u8) -> (text: Vec<u8>)
        requires
            effective < 8,
        ensures
            text@ == (if is_direct_address(*instruction, effective) {
                ascii("["@) + signed_decimal(instruction.disp as int)
            } else {
                ascii(effective_address_name(effective))
            }),
    {
        let mut text: Vec<u8> = Vec::new();
        proof {
            reveal_strlit("[");
        }
        if effective == 6 && instruction.data_fields.mode == 0 {
            push_ascii(&mut text, "[");
            push_signed_decimal(&mut text, instruction.disp);
            assert(text@ =~= ascii("["@) + signed_decimal(instruction.disp as int));
        } else {
            push_ascii(&mut text, effective_address_str(effective));
            assert(text@ =~= ascii(effective_address_name(effective)));
        }
        text
    }

    /// The text of the operand `rm` of `instruction`. A memory operand uses
    /// up the pending segment override.
    pub fn address_to_string(&mut self, instruction: &Instruction, rm: RM) -> (text: Vec<u8>)
        requires
            old(self)@.wf(),
            rm.wf(),
        ensures
            text@ == old(self)@.operand_text(*instruction, rm),
            final(self)@ == old(self)@.after_operand(rm),
            final(self)@.wf(),
    {
        let mut text: Vec<u8> = Vec::new();
        proof {
            reveal_strlit(":");
            reveal_strlit("]");
        }
        match rm {
            RM::Reg(register) => {
                push_ascii(&mut text, self.register_to_str(instruction, register));
                assert(text@ =~= old(self)@.operand_text(*instruction, rm));
            },
            RM::Eff(effective) => {
                if self.context.segment != NO_SEGMENT {
                    push_ascii(&mut text, segment_register_str(self.context.segment));
                    push_ascii(&mut text, ":");
                    self.context.segment = NO_SEGMENT;
                }
                let mut opening = self.effective_to_string(instruction, effective);
                text.append(&mut opening);
                let is_direct = effective == 6 && instruction.data_fields.mode == 0;
                if !is_direct && instruction.disp != 0 {
                    push_sign_and_decimal(&mut text, instruction.disp);
                }
                push_ascii(&mut text, "]");
                assert(text@ =~= old(self)@.operand_text(*instruction, rm));
            },
        }
        text
    }

    /// Writes the source operand of `instruction`.
    pub fn write_source(&mut self, instruction: &Instruction) -> (writer: &mut Self)
        requires
            old(self)@.wf(),
            instruction.wf(),
        ensures
            writer@ == old(self)@.write_operand(*instruction, instruction.spec_get_source()),
            writer@.wf(),
            *final(self) == *final(writer),
    {
        let text = self.address_to_string(instruction, instruction.get_source());
        self.write(text.as_slice())
    }

    /// Writes the destination operand of `instruction`.
    pub fn write_destination(&mut self, instruction: &Instruction) -> (writer: &mut Self)
        requires
            old(self)@.wf(),
            instruction.wf(),
        ensures
            writer@ == old(self)@.write_operand(*instruction, instruction.spec_get_destination()),
            writer@.wf(),
            *final(self) == *final(writer),
    {
        let text = self.address_to_string(instruction, instruction.get_destination());
        self.write(text.as_slice())
    }

    /// Writes the register or memory operand of `instruction`.
    pub fn write_rm(&mut self, instruction: &Instruction) -> (writer: &mut Self)
        requires
            old(self)@.wf(),
            instruction.wf(),
        ensures
            writer@ == old(self)@.write_operand(*instruction, instruction.data_fields.rm),
            writer@.wf(),
            *final(self) == *final(writer),
    {
        let text = self.address_to_string(instruction, instruction.data_fields.rm);
        self.write(text.as_slice())
    }

    /// The index of the last instruction written that starts at the input
    /// offset `target`.
    fn find_last_starting_at(&self, target: usize) -> (found: Option<usize>)
        ensures
            match found {
                Some(i) => i < self@.instructions.len() && last_starting_at(
                    self@.instructions,
                    target as int,
                ) == Some(i as int),
                None => last_starting_at(self@.instructions, target as int) == None::<int>,
            },
    {
        let ghost all = self.instruction_buffer@;
        let mut i: usize = self.instruction_buffer.len();
        assert(all.subrange(0, i as int) =~= all);
        while i > 0
            invariant
                i <= all.len(),
                all == self.instruction_buffer@,
                last_starting_at(all, target as int) == last_starting_at(
                    all.subrange(0, i as int),
                    target as int,
                ),
            decreases i,
        {
            let ghost front = all.subrange(0, i as int);
            i = i - 1;
            assert(front.last() == all[i as int]);
            assert(front.drop_last() =~= all.subrange(0, i as int));
            if self.instruction_buffer[i].start_instruction_index == target {
                return Some(i);
            }
        }
        None
    }

    /// Moves every instruction that stands in the output at the offset
    /// `at` or behind it on by `length`, after as many bytes were inserted
    /// there.
    fn move_behind(&mut self, at: usize, length: usize)
        requires
            forall|i: int|
                0 <= i < old(self)@.instructions.len() ==> (
                #[trigger] old(self)@.instructions[i]).start_file_index + length <= usize::MAX,
            old(self)@.current_instruction matches Some(current) ==> current.start_file_index
                + length <= usize::MAX,
        ensures
            final(self)@ == (WriterView {
                instructions: Seq::new(
                    old(self)@.instructions.len(),
                    |i: int| moved_behind(old(self)@.instructions[i], at as int, length as int),
                ),
                current_instruction: match old(self)@.current_instruction {
                    Some(current) => Some(moved_behind(current, at as int, length as int)),
                    None => None,
                },
                ..old(self)@
            }),
    {
        let ghost before = self.instruction_buffer@;
        let mut i: usize = 0;
        while i < self.instruction_buffer.len()
            invariant
                i <= before.len(),
                self.instruction_buffer@.len() == before.len(),
                forall|k: int|
                    0 <= k < i ==> self.instruction_buffer@[k] == moved_behind(
                        #[trigger] before[k],
                        at as int,
                        length as int,
                    ),
                forall|k: int| i <= k < before.len() ==> self.instruction_buffer@[k] == before[k],
                forall|k: int|
                    0 <= k < before.len() ==> (#[trigger] before[k]).start_file_index + length
                        <= usize::MAX,
                self.file_buffer == old(self).file_buffer,
                self.next_instruction_byte_index == old(self).next_instruction_byte_index,
                self.current_instruction_byte_index == old(self).current_instruction_byte_index,
                self.label_map == old(self).label_map,
                self.current_instruction == old(self).current_instruction,
                self.options == old(self).options,
                self.context == old(self).context,
            decreases before.len() - i,
        {
            let record = self.instruction_buffer[i];
            assert(record == before[i as int]);
            if record.start_file_index >= at {
                self.instruction_buffer.set(
                    i,
                    WrittenInstruction {
                        start_instruction_index: record.start_instruction_index,
                        start_file_index: record.start_file_index + length,
                        length: record.length,
                    },
                );
            }
            i = i + 1;
        }
        if let Some(current) = self.current_instruction {
            if current.start_file_index >= at {
                self.current_instruction = Some(
                    WrittenInstruction {
                        start_instruction_index: current.start_instruction_index,
                        start_file_index: current.start_file_index + length,
                        length: current.length,
                    },
                );
            }
        }
        assert(self.instruction_buffer@ =~= Seq::new(
            before.len(),
            |i: int| moved_behind(before[i], at as int, length as int),
        ));
    }

    /// Writes the operand of a jump by `displacement` from the end of the
    /// instruction being written: a reference to the label of the target.
    pub fn write_jump_displacement(&mut self, displacement: i16) -> (writer: &mut Self)
        requires
            old(self)@.wf(),
            0 <= old(self)@.jump_target(displacement) <= usize::MAX,
            old(self)@.inserts_label(displacement) ==> old(self)@.current_instruction is Some,
        ensures
            writer@ == old(self)@.write_jump_displacement(displacement),
            writer@.wf(),
            *final(self) == *final(writer),
    {
        let next_inst_byte = self.next_instruction_byte_index;
        let target_index: usize = if displacement >= 0 {
            next_inst_byte + displacement as usize
        } else {
            next_inst_byte - magnitude(displacement) as usize
        };
        let new_label_number = self.label_map.len();
        let known = match self.label_map.get(&target_index) {
            Some(label) => Some(*label),
            None => None,
        };
        let label = match known {
            Some(label) => label,
            None => Label { number: new_label_number, inserted: false },
        };
        proof {
            lemma_label_referenced(old(self)@, target_index);
        }
        self.label_map.insert(target_index, label);
        push_label_reference(&mut self.file_buffer, label.number);
        if displacement >= 0 || label.inserted {
            return self;
        }
        let ghost referenced = self@;
        let found = self.find_last_starting_at(target_index);
        let insert_index = match found {
            Some(i) => self.instruction_buffer[i].start_file_index,
            None => self.current_instruction.unwrap().start_file_index,
        };
        proof {
            lemma_last_starting_at(referenced.instructions, target_index as int);
        }
        let header = make_label_header(label.number);
        let mut tail = self.file_buffer.split_off(insert_index);
        self.file_buffer.extend_from_slice(header.as_slice());
        self.file_buffer.append(&mut tail);
        assert(self.file_buffer@ =~= splice(
            referenced.buffer,
            insert_index as int,
            label_header(label.number),
        ));
        proof {
            vstd::std_specs::vec::axiom_spec_len(&self.file_buffer);
        }
        self.move_behind(insert_index, header.len());
        proof {
            lemma_label_marked(referenced, target_index);
        }
        self.label_map.insert(target_index, Label { number: label.number, inserted: true });
        self
    }

    /// Ends the line.
    pub fn end_line(&mut self) -> (writer: &mut Self)
        requires
            old(self)@.wf(),
        ensures
            writer@ == old(self)@.end_line(),
            writer@.wf(),
            *final(self) == *final(writer),
    {
        if let Some(current_instruction) = self.current_instruction {
            self.current_instruction_byte_index += current_instruction.length as usize;
            self.current_instruction = None;
            self.context.segment = NO_SEGMENT;
        }
        self.file_buffer.push(10);
        self
    }

    /// The number of input bytes of all instructions started so far.
    pub fn next_byte_index(&self) -> (index: usize)
        ensures
            index == self@.next_index,
    {
        self.next_instruction_byte_index
    }

    /// The number of input bytes of all instructions finished so far.
    pub fn current_byte_index(&self) -> (index: usize)
        ensures
            index == self@.current_index,
    {
        self.current_instruction_byte_index
    }

    /// Gives up the emitter for the text written so far.
    pub fn into_bytes(self) -> (text: Vec<u8>)
        ensures
            text@ == self@.buffer,
    {
        self.file_buffer
    }

    /// The text written so far.
    pub fn as_slice(&self) -> (text: &[u8])
        ensures
            text@ == self@.buffer,
    {
        self.file_buffer.as_slice()
    }
}

/// Whether every label of `before` is a label of `after` with the same
/// number, and has its header written in `after` if it had in `before`.
pub open spec fn labels_kept(before: WriterView, after: WriterView) -> bool {
    forall|target: usize| #[trigger]
        before.labels.dom().contains(target) ==> {
            &&& after.labels.dom().contains(target)
            &&& after.labels[target].number == before.labels[target].number
            &&& before.labels[target].inserted ==> after.labels[target].inserted
        }
}

impl WriterView {
    /// Labels are numbered in the order in which their targets are first
    /// referred to: a jump to a target that has no label gives it the number
    /// of labels there are, a jump to a target that has one gives out no
    /// number, and no jump changes the number of a label.
    pub proof fn lemma_labels_numbered_by_first_reference(self, displacement: i16)
        requires
            self.wf(),
            self.labels.len() <= usize::MAX,
        ensures
            ({
                let target = self.jump_target(displacement) as usize;
                let after = self.write_jump_displacement(displacement);
                &&& labels_kept(self, after)
                &&& after.labels.dom() == self.labels.dom().insert(target)
                &&& self.labels.dom().contains(target) ==> after.labels.len() == self.labels.len()
                &&& !self.labels.dom().contains(target) ==> {
                    &&& after.labels[target].number == self.labels.len()
                    &&& after.labels.len() == self.labels.len() + 1
                }
            }),
    {
        let target = self.jump_target(displacement) as usize;
        let after = self.write_jump_displacement(displacement);
        assert(after.labels.dom() =~= self.labels.dom().insert(target));
    }

    /// Beginning a line gives out no label and changes the number of none.
    pub proof fn lemma_start_instruction_keeps_labels(self, instruction: Instruction)
        ensures
            labels_kept(self, self.start_instruction(instruction)),
            self.start_instruction(instruction).labels.dom() == self.labels.dom(),
    {
        let target = self.current_index as usize;
        assert(self.write_pending_label().labels.dom() =~= self.labels.dom());
    }

    /// Two jumps to one target share one label: when a jump has referred to
    /// a target, and the line is ended and the line of another instruction
    /// begun, a jump from there to the same target refers to the same label
    /// and gives out no number.
    pub proof fn lemma_jumps_to_one_target_share_a_label(
        self,
        first: i16,
        next: Instruction,
        second: i16,
    )
        requires
            self.wf(),
            self.labels.len() <= usize::MAX,
            0 <= self.jump_target(first) <= usize::MAX,
            self.write_jump_displacement(first).end_line().start_instruction(next).jump_target(
                second,
            ) == self.jump_target(first),
        ensures
            ({
                let target = self.jump_target(first) as usize;
                let between = self.write_jump_displacement(first).end_line().start_instruction(
                    next,
                );
                &&& between.label_of(target).number == self.label_of(target).number
                &&& between.write_jump_displacement(second).labels.dom() == between.labels.dom()
                &&& between.write_jump_displacement(second).labels[target].number
                    == self.label_of(target).number
            }),
    {
        let target = self.jump_target(first) as usize;
        let jumped = self.write_jump_displacement(first);
        self.lemma_labels_numbered_by_first_reference(first);
        assert(jumped.labels.dom().contains(target));
        jumped.end_line().lemma_start_instruction_keeps_labels(next);
        let between = jumped.end_line().start_instruction(next);
        assert(between.labels.dom().contains(target));
        assert(between.write_jump_displacement(second).labels.dom() =~= between.labels.dom());
    }

    /// The header of a label for the very first instruction is inserted
    /// before everything that was written: the text begins with the header.
    pub proof fn lemma_label_before_first_instruction(self, target: usize, label: Label)
        requires
            last_starting_at(self.instructions, target as int) == Some(0int),
            self.instructions[0].start_file_index == 0,
        ensures
            self.insert_label(target, label).buffer == label_header(label.number) + self.buffer,
    {
        assert(self.insert_label(target, label).buffer =~= label_header(label.number)
            + self.buffer);
    }
}

/// Giving `target` its label, a new one if it has none, keeps the labels
/// numbered.
proof fn lemma_label_referenced(view: WriterView, target: usize)
    requires
        view.wf(),
    ensures
        ({
            let labels = view.labels.insert(target, view.label_of(target));
            &&& labels.dom().finite()
            &&& view.labels.len() <= usize::MAX ==> (WriterView {
                labels,
                ..view
            }).labels_numbered()
        }),
{
    let label = view.label_of(target);
    let labels = view.labels.insert(target, label);
    if view.labels.dom().contains(target) {
        assert(labels =~= view.labels);
    } else {
        assert(labels.dom() =~= view.labels.dom().insert(target));
        assert(labels.len() == view.labels.len() + 1);
    }
}

/// Marking the label of `target` as inserted keeps the labels numbered.
proof fn lemma_label_marked(view: WriterView, target: usize)
    requires
        view.wf(),
        view.labels.dom().contains(target),
    ensures
        ({
            let label = view.labels[target];
            let labels = view.labels.insert(target, Label { inserted: true, ..label });
            &&& labels.len() == view.labels.len()
            &&& labels.dom() == view.labels.dom()
            &&& (WriterView { labels, ..view }).labels_numbered()
        }),
{
    let label = view.labels[target];
    let labels = view.labels.insert(target, Label { inserted: true, ..label });
    assert(labels.dom() =~= view.labels.dom());
}

} // verus!
