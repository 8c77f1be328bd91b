//! The cursor that decodes a byte stream one instruction at a time.
use vstd::prelude::*;
use crate::instructions::instruction::{encoded_length, Instruction};
use crate::instructions::lemmas::lemma_parse_reads_only_the_encoding;

verus! {

/// A cursor over a byte stream, which yields the records of the
/// instructions that follow one another in it.
#[derive(Debug, Copy, Clone)]
pub struct Parser<'a> {
    bytes: &'a [u8],
    current_index: usize,
    instruction: Instruction,
}

/// The input was empty, so there is nothing to parse.
#[derive(Debug)]
pub struct ParserInitError;

/// The state of a [`Parser`]: its input and the offset of the byte that it
/// reads next.
pub struct ParserView {
    pub bytes: Seq<u8>,
    pub index: int,
}

impl ParserView {
    /// The cursor stands within the input or at its end.
    pub open spec fn wf(self) -> bool {
        0 <= self.index <= self.bytes.len()
    }

    /// The bytes that are not read yet.
    pub open spec fn remaining(self) -> Seq<u8> {
        self.bytes.subrange(self.index, self.bytes.len() as int)
    }
}

/// Whether `encoding` is the encoding of one instruction, whole and
/// without a byte behind it.
pub open spec fn is_encoding(encoding: Seq<u8>) -> bool {
    encoding.len() > 0 && encoded_length(encoding) == encoding.len()
}

/// Before the encoding of an instruction, whatever follows it, the parser
/// yields the record of that instruction and moves on by the length of the
/// encoding, which is the length of the record.
pub proof fn lemma_next_consumes_one_encoding(view: ParserView, encoding: Seq<u8>)
    requires
        view.wf(),
        is_encoding(encoding),
        encoding.len() <= view.remaining().len(),
        view.remaining().subrange(0, encoding.len() as int) == encoding,
    ensures
        Instruction::spec_parse(view.remaining()) == Instruction::spec_parse(encoding),
        encoded_length(view.remaining()) == encoding.len(),
        Instruction::spec_parse(view.remaining()) matches Some(record) && record.length
            == encoding.len(),
{
    assert forall|i: int| 0 <= i < encoding.len() implies encoding[i] == view.remaining()[i] by {
        assert(view.remaining().subrange(0, encoding.len() as int)[i] == view.remaining()[i]);
    }
    lemma_parse_reads_only_the_encoding(encoding, view.remaining());
}

impl<'a> View for Parser<'a> {
    type V = ParserView;

    closed spec fn view(&self) -> ParserView {
        ParserView { bytes: self.bytes@, index: self.current_index as int }
    }
}

impl ParserInitError {
    /// The message of the error.
    pub fn to_string(&self) -> (text: String)
        ensures
            text@ == "Could not initialize parser."@,
    {
        "Could not initialize parser.".to_owned()
    }
}

impl<'a> Parser<'a> {
    /// A cursor at the start of `bytes`; an error if there are no bytes.
    pub fn build(bytes: &'a [u8]) -> (built: Result<Parser<'a>, ParserInitError>)
        ensures
            bytes.len() == 0 <==> built is Err,
            built matches Ok(parser) ==> parser@ == (ParserView { bytes: bytes@, index: 0 })
                && parser@.wf(),
    {
        if bytes.len() == 0 {
            return Err(ParserInitError);
        }
        Ok(Self { bytes, current_index: 0, instruction: Instruction::empty() })
    }

    /// The offset of the byte that is read next: the number of bytes of the
    /// instructions yielded so far.
    pub fn position(&self) -> (index: usize)
        ensures
            index == self@.index,
    {
        self.current_index
    }

    /// Parses the next instruction and moves behind it. Nothing is yielded,
    /// and the cursor stays, at the end of the input and before bytes that
    /// begin with no instruction.
    pub fn next(&mut self) -> (parsed: Option<Instruction>)
        requires
            old(self)@.wf(),
        ensures
            parsed == Instruction::spec_parse(old(self)@.remaining()),
            final(self)@.wf(),
            final(self)@.bytes == old(self)@.bytes,
            final(self)@.index == old(self)@.index + encoded_length(old(self)@.remaining()),
            parsed matches Some(instruction) ==> {
                &&& instruction.wf()
                &&& 1 <= instruction.length <= 6
                &&& instruction.length == encoded_length(old(self)@.remaining())
                &&& instruction.input@.subrange(0, instruction.length as int) == old(
                    self,
                )@.bytes.subrange(old(self)@.index, old(self)@.index + instruction.length)
            },
    {
        let remaining_bytes = self.bytes.len() - self.current_index;
        if remaining_bytes == 0 {
            assert(self@.remaining() =~= Seq::<u8>::empty());
            return None;
        }
        let remaining_bytes_slice = &self.bytes[self.current_index..self.bytes.len()];
        assert(remaining_bytes_slice@ =~= self@.remaining());
        match Instruction::parse(remaining_bytes_slice) {
            Some(instruction) => {
                self.instruction = instruction;
                self.current_index += instruction.length as usize;
                assert(instruction.input@.subrange(0, instruction.length as int) =~= old(
                    self,
                )@.bytes.subrange(old(self)@.index, old(self)@.index + instruction.length));
                Some(instruction)
            },
            None => None,
        }
    }
}

} // verus!
