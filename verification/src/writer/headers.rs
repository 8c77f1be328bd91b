//! The headers of the labels in the text of the emitter: while whole
//! records are rendered, the header of a label stands in the text exactly
//! once if the label is marked as inserted, and nowhere if it is not.
//!
//! A header ends in a colon and a newline. The emitter writes that pair of
//! bytes nowhere else: every text that it appends within a line is free of
//! newlines, and no line ends in a colon. So the headers in the text can be
//! counted by the places at which that pair stands.
use vstd::prelude::*;
use crate::instructions::common::{
    byte_register_name,
    effective_address_name,
    segment_register_name,
    word_register_name,
    RM,
};
use crate::instructions::instruction::Instruction;
use crate::instructions::opcode::{is_mnemonic_char, Opcode};
use crate::text::{ascii, decimal, hex_literal, hexadecimal, sign_and_decimal, signed_decimal};
use crate::writer::{
    label_header,
    label_reference,
    lemma_last_starting_at,
    memory_operand_text,
    octet_text,
    octets_text,
    segment_override_text,
    segment_prefix_byte,
    splice,
    Label,
    WriterView,
    NO_SEGMENT,
};

verus! {

/// Whether a colon and a newline stand in `text` at `end - 1` and `end`.
pub open spec fn is_header_end(text: Seq<u8>, end: int) -> bool {
    1 <= end < text.len() && text[end - 1] == 58 && text[end] == 10
}

/// Whether the header of the label `number` stands in `text` so that its
/// last byte is the one at `end`.
pub open spec fn header_ends_at(text: Seq<u8>, number: usize, end: int) -> bool {
    let header = label_header(number);
    &&& header.len() <= end + 1 <= text.len()
    &&& text.subrange(end + 1 - header.len(), end + 1) == header
}

/// Whether the header of the label `number` stands in `text` from `start`
/// on.
pub open spec fn header_stands_at(text: Seq<u8>, number: usize, start: int) -> bool {
    let header = label_header(number);
    &&& 0 <= start
    &&& start + header.len() <= text.len()
    &&& text.subrange(start, start + header.len()) == header
}

/// Whether `piece` can be appended within a line: it holds no newline and
/// does not end in a colon.
pub open spec fn plain(piece: Seq<u8>) -> bool {
    &&& forall|i: int| 0 <= i < piece.len() ==> piece[i] != 10
    &&& piece.len() > 0 ==> piece.last() != 58
}

/// Whether the offset `at` of `text` is its start or stands behind a
/// newline or a space.
pub open spec fn follows_a_break(text: Seq<u8>, at: int) -> bool {
    &&& 0 <= at <= text.len()
    &&& at == 0 || text[at - 1] == 10 || text[at - 1] == 32
}

/// Whether `text` is empty or ends in a byte that is no colon.
pub open spec fn ends_without_colon(text: Seq<u8>) -> bool {
    text.len() > 0 ==> text.last() != 58
}

/// Whether the label of `target` is marked as inserted and its header
/// stands in `text` with its last byte at `end`.
pub open spec fn owns(text: Seq<u8>, labels: Map<usize, Label>, target: usize, end: int) -> bool {
    &&& labels.dom().contains(target)
    &&& labels[target].inserted
    &&& is_header_end(text, end)
    &&& header_ends_at(text, labels[target].number, end)
}

/// Whether the header of the label `number` stands in `text` from `start`
/// on and nowhere else.
pub open spec fn stands_once_at(text: Seq<u8>, number: usize, start: int) -> bool {
    &&& header_stands_at(text, number, start)
    &&& forall|other: int| header_stands_at(text, number, other) ==> other == start
}

/// Whether no two of `labels` carry the same number.
pub open spec fn numbers_differ(labels: Map<usize, Label>) -> bool {
    forall|a: usize, b: usize|
        #![trigger labels[a], labels[b]]
        labels.dom().contains(a) && labels.dom().contains(b) && labels[a].number
            == labels[b].number ==> a == b
}

/// Whether the headers in `text` are those of the labels marked as
/// inserted, each once: every colon before a newline ends the header of
/// such a label, every such label has its header in the text, and none has
/// it twice.
pub open spec fn headers_owned(text: Seq<u8>, labels: Map<usize, Label>) -> bool {
    &&& numbers_differ(labels)
    &&& forall|end: int| #[trigger]
        is_header_end(text, end) ==> exists|target: usize| owns(text, labels, target, end)
    &&& forall|target: usize|
        labels.dom().contains(target) && (#[trigger] labels[target]).inserted ==> exists|end: int|
            owns(text, labels, target, end)
    &&& forall|target: usize, first: int, second: int|
        owns(text, labels, target, first) && owns(text, labels, target, second) ==> first
            == second
}

/// The digits of a number are digits.
pub proof fn lemma_decimal_digits(n: nat)
    ensures
        decimal(n).len() >= 1,
        forall|i: int| 0 <= i < decimal(n).len() ==> 48 <= #[trigger] decimal(n)[i] <= 57,
    decreases n,
{
    if n >= 10 {
        lemma_decimal_digits(n / 10);
    }
}

/// The number that a sequence of digits stands for.
pub open spec fn decimal_value(digits: Seq<u8>) -> nat
    decreases digits.len(),
{
    if digits.len() == 0 {
        0
    } else {
        (decimal_value(digits.drop_last()) * 10 + (digits.last() - 48)) as nat
    }
}

/// The digits of a number stand for that number, so that different numbers
/// have different digits.
pub proof fn lemma_decimal_value(n: nat)
    ensures
        decimal_value(decimal(n)) == n,
    decreases n,
{
    if n >= 10 {
        lemma_decimal_value(n / 10);
        assert(decimal(n).drop_last() =~= decimal(n / 10));
    } else {
        assert(decimal(n).drop_last() =~= Seq::<u8>::empty());
        assert(decimal_value(Seq::<u8>::empty()) == 0);
    }
}

/// The shape of a header: `loc_`, digits, a colon and a newline. Only its
/// last byte is a newline, only the one before is a colon, and it holds no
/// space.
pub proof fn lemma_header_shape(number: usize)
    ensures
        ({
            let header = label_header(number);
            let len = header.len() as int;
            &&& len == 6 + decimal(number as nat).len()
            &&& len >= 7
            &&& header[0] == 108
            &&& header[1] == 111
            &&& header[2] == 99
            &&& header[3] == 95
            &&& forall|i: int| 4 <= i < len - 2 ==> 48 <= #[trigger] header[i] <= 57
            &&& forall|i: int|
                4 <= i < len - 2 ==> #[trigger] header[i] == decimal(number as nat)[i - 4]
            &&& header[len - 2] == 58
            &&& header[len - 1] == 10
        }),
{
    reveal_strlit("loc_");
    reveal_strlit(":\n");
    lemma_decimal_digits(number as nat);
    let header = label_header(number);
    assert(ascii("loc_"@).len() == 4);
    assert(ascii(":\n"@).len() == 2);
    assert(label_reference(number).len() == 4 + decimal(number as nat).len());
}

/// If the header of one label is the end of the header of another, it is
/// the header of the same label.
pub proof fn lemma_header_is_no_proper_suffix(inner: usize, outer: usize)
    requires
        label_header(inner).len() <= label_header(outer).len(),
        label_header(outer).subrange(
            label_header(outer).len() - label_header(inner).len(),
            label_header(outer).len() as int,
        ) == label_header(inner),
    ensures
        inner == outer,
{
    lemma_header_shape(inner);
    lemma_header_shape(outer);
    let small = label_header(inner);
    let large = label_header(outer);
    let shift = large.len() - small.len();
    let tail = large.subrange(shift, large.len() as int);
    assert(tail[0] == small[0]);
    assert(large[shift] == 108);
    if shift > 0 {
        // no byte of a header behind its first is the letter l
        assert(false);
    }
    assert(small =~= large);
    let a = decimal(inner as nat);
    let b = decimal(outer as nat);
    assert(a.len() == b.len());
    assert forall|i: int| 0 <= i < a.len() implies a[i] == b[i] by {
        assert(small[i + 4] == large[i + 4]);
    }
    assert(a =~= b);
    lemma_decimal_value(inner as nat);
    lemma_decimal_value(outer as nat);
}

/// Two headers that end at the same place of a text are the header of one
/// label.
pub proof fn lemma_headers_at_one_end(text: Seq<u8>, first: usize, second: usize, end: int)
    requires
        header_ends_at(text, first, end),
        header_ends_at(text, second, end),
    ensures
        first == second,
{
    let a = label_header(first);
    let b = label_header(second);
    if a.len() <= b.len() {
        assert(b.subrange(b.len() - a.len(), b.len() as int) =~= a) by {
            assert forall|i: int| 0 <= i < a.len() implies b[b.len() - a.len() + i] == a[i] by {
                assert(text.subrange(end + 1 - a.len(), end + 1)[i] == a[i]);
                assert(text.subrange(end + 1 - b.len(), end + 1)[b.len() - a.len() + i] == b[b.len()
                    - a.len() + i]);
            }
        }
        lemma_header_is_no_proper_suffix(first, second);
    } else {
        assert(a.subrange(a.len() - b.len(), a.len() as int) =~= b) by {
            assert forall|i: int| 0 <= i < b.len() implies a[a.len() - b.len() + i] == b[i] by {
                assert(text.subrange(end + 1 - b.len(), end + 1)[i] == b[i]);
                assert(text.subrange(end + 1 - a.len(), end + 1)[a.len() - b.len() + i] == a[a.len()
                    - b.len() + i]);
            }
        }
        lemma_header_is_no_proper_suffix(second, first);
    }
}

/// The bytes of a header that stands in a text are the bytes of the text
/// at its place.
pub proof fn lemma_header_bytes(text: Seq<u8>, number: usize, end: int)
    requires
        header_ends_at(text, number, end),
    ensures
        forall|k: int|
            0 <= k < label_header(number).len() ==> text[end + 1 - label_header(number).len() + k]
                == #[trigger] label_header(number)[k],
        is_header_end(text, end),
{
    let header = label_header(number);
    let start = end + 1 - header.len();
    lemma_header_shape(number);
    assert forall|k: int| 0 <= k < header.len() implies text[start + k] == #[trigger] header[k] by {
        assert(text.subrange(start, end + 1)[k] == text[start + k]);
    }
    assert(text[start + header.len() - 2] == header[header.len() - 2]);
    assert(text[start + header.len() - 1] == header[header.len() - 1]);
}

/// A piece that is appended within a line brings no header and takes none
/// away.
pub proof fn lemma_append_plain(text: Seq<u8>, labels: Map<usize, Label>, piece: Seq<u8>)
    requires
        headers_owned(text, labels),
        plain(piece),
    ensures
        headers_owned(text + piece, labels),
{
    let after = text + piece;
    assert forall|end: int, number: usize| end < text.len() implies (header_ends_at(
        after,
        number,
        end,
    ) <==> header_ends_at(text, number, end)) by {
        let header = label_header(number);
        if header.len() <= end + 1 {
            assert(after.subrange(end + 1 - header.len(), end + 1) =~= text.subrange(
                end + 1 - header.len(),
                end + 1,
            ));
        }
    }
    assert forall|end: int| is_header_end(after, end) implies is_header_end(text, end) by {
        if end >= text.len() {
            assert(after[end] == piece[end - text.len()]);
        }
    }
    assert forall|target: usize, end: int|
        owns(after, labels, target, end) <==> owns(text, labels, target, end) by {
        if is_header_end(after, end) {
            assert(is_header_end(text, end));
        }
    }
    assert forall|end: int| #[trigger] is_header_end(after, end) implies exists|target: usize|
        owns(after, labels, target, end) by {
        let target = choose|target: usize| owns(text, labels, target, end);
        assert(owns(after, labels, target, end));
    }
    assert forall|target: usize|
        labels.dom().contains(target) && (#[trigger] labels[target]).inserted implies exists|
        end: int,
    | owns(after, labels, target, end) by {
        let end = choose|end: int| owns(text, labels, target, end);
        assert(owns(after, labels, target, end));
    }
}

/// The newline at the end of a line that does not end in a colon brings
/// no header.
pub proof fn lemma_append_newline(text: Seq<u8>, labels: Map<usize, Label>)
    requires
        headers_owned(text, labels),
        ends_without_colon(text),
    ensures
        headers_owned(text.push(10u8), labels),
{
    let after = text.push(10u8);
    assert forall|end: int, number: usize| end < text.len() implies (header_ends_at(
        after,
        number,
        end,
    ) <==> header_ends_at(text, number, end)) by {
        let header = label_header(number);
        if header.len() <= end + 1 {
            assert(after.subrange(end + 1 - header.len(), end + 1) =~= text.subrange(
                end + 1 - header.len(),
                end + 1,
            ));
        }
    }
    assert forall|end: int| is_header_end(after, end) implies is_header_end(text, end) by {
        if end >= text.len() {
            assert(after[end - 1] == text[end - 1]);
        }
    }
    assert forall|target: usize, end: int|
        owns(after, labels, target, end) <==> owns(text, labels, target, end) by {
        if is_header_end(after, end) {
            assert(is_header_end(text, end));
        }
    }
    assert forall|end: int| #[trigger] is_header_end(after, end) implies exists|target: usize|
        owns(after, labels, target, end) by {
        let target = choose|target: usize| owns(text, labels, target, end);
        assert(owns(after, labels, target, end));
    }
    assert forall|target: usize|
        labels.dom().contains(target) && (#[trigger] labels[target]).inserted implies exists|
        end: int,
    | owns(after, labels, target, end) by {
        let end = choose|end: int| owns(text, labels, target, end);
        assert(owns(after, labels, target, end));
    }
}

/// A label that has no header yet can be given to a target, or given to it
/// again, without a change to the headers.
pub proof fn lemma_label_without_header(
    text: Seq<u8>,
    labels: Map<usize, Label>,
    target: usize,
    label: Label,
)
    requires
        headers_owned(text, labels),
        labels.dom().contains(target) ==> labels[target] == label,
        !labels.dom().contains(target) ==> !label.inserted,
        numbers_differ(labels.insert(target, label)),
    ensures
        headers_owned(text, labels.insert(target, label)),
{
    let after = labels.insert(target, label);
    assert forall|other: usize, end: int|
        owns(text, after, other, end) <==> owns(text, labels, other, end) by {}
    assert forall|end: int| #[trigger] is_header_end(text, end) implies exists|other: usize|
        owns(text, after, other, end) by {
        let other = choose|other: usize| owns(text, labels, other, end);
        assert(owns(text, after, other, end));
    }
    assert forall|other: usize|
        after.dom().contains(other) && (#[trigger] after[other]).inserted implies exists|
        end: int,
    | owns(text, after, other, end) by {
        assert(labels.dom().contains(other) && labels[other].inserted);
        let end = choose|end: int| owns(text, labels, other, end);
        assert(owns(text, after, other, end));
    }
}

/// The bytes of a text into which a piece was put at the offset `at`.
pub proof fn lemma_splice_bytes(text: Seq<u8>, at: int, piece: Seq<u8>)
    requires
        0 <= at <= text.len(),
    ensures
        splice(text, at, piece).len() == text.len() + piece.len(),
        forall|k: int|
            0 <= k < text.len() + piece.len() ==> #[trigger] splice(text, at, piece)[k] == (if k
                < at {
                text[k]
            } else if k < at + piece.len() {
                piece[k - at]
            } else {
                text[k - piece.len()]
            }),
{
}

/// Only the first byte of a header is the letter `l`, only its last a
/// newline, and none is a space.
pub proof fn lemma_header_letters(number: usize)
    ensures
        forall|k: int|
            1 <= k < label_header(number).len() ==> #[trigger] label_header(number)[k] != 108,
        forall|k: int|
            0 <= k < label_header(number).len() - 1 ==> #[trigger] label_header(number)[k] != 10,
        forall|k: int|
            0 <= k < label_header(number).len() ==> #[trigger] label_header(number)[k] != 32,
{
    lemma_header_shape(number);
    let header = label_header(number);
    assert forall|k: int| 0 <= k < header.len() implies (#[trigger] header[k] != 32 && (k >= 1
        ==> header[k] != 108) && (k < header.len() - 1 ==> header[k] != 10)) by {
        if 4 <= k < header.len() - 2 {
            assert(48 <= header[k] <= 57);
        }
    }
}

/// A header that reaches an offset behind a newline or a space begins at
/// that offset or behind it: no break stands within a header.
pub proof fn lemma_header_behind_break(text: Seq<u8>, number: usize, end: int, at: int)
    requires
        header_ends_at(text, number, end),
        follows_a_break(text, at),
        at <= end,
    ensures
        at <= end + 1 - label_header(number).len(),
{
    let header = label_header(number);
    let start = end + 1 - header.len();
    lemma_header_bytes(text, number, end);
    lemma_header_letters(number);
    if start < at {
        let k = at - 1 - start;
        assert(text[start + k] == header[k]);
        assert(header[k] != 10 && header[k] != 32);
    }
}

/// A header that stands before the offset at which a piece is put into a
/// text stands where it stood.
pub proof fn lemma_header_before_splice(
    text: Seq<u8>,
    at: int,
    piece: Seq<u8>,
    number: usize,
    end: int,
)
    requires
        0 <= at <= text.len(),
        end < at,
    ensures
        header_ends_at(splice(text, at, piece), number, end) <==> header_ends_at(
            text,
            number,
            end,
        ),
{
    let header = label_header(number);
    lemma_splice_bytes(text, at, piece);
    if header.len() <= end + 1 {
        assert(splice(text, at, piece).subrange(end + 1 - header.len(), end + 1) =~= text.subrange(
            end + 1 - header.len(),
            end + 1,
        ));
    }
}

/// A header that begins at the offset at which a piece is put into a text,
/// or behind it, stands behind the piece by the length of the piece.
pub proof fn lemma_header_behind_splice(
    text: Seq<u8>,
    at: int,
    piece: Seq<u8>,
    number: usize,
    end: int,
)
    requires
        0 <= at <= text.len(),
        at <= end + 1 - label_header(number).len(),
    ensures
        header_ends_at(splice(text, at, piece), number, end + piece.len()) <==> header_ends_at(
            text,
            number,
            end,
        ),
{
    let header = label_header(number);
    lemma_splice_bytes(text, at, piece);
    if end + 1 <= text.len() {
        assert(splice(text, at, piece).subrange(
            end + piece.len() + 1 - header.len(),
            end + piece.len() + 1,
        ) =~= text.subrange(end + 1 - header.len(), end + 1));
    }
}

/// Where a header can stand in a text into which the header of the label
/// `inserted` was put at an offset behind a break: where it stood before
/// that offset, where it stood behind it, or it is the header that was
/// put in.
pub proof fn lemma_header_in_splice(
    text: Seq<u8>,
    at: int,
    inserted: usize,
    number: usize,
    end: int,
)
    requires
        follows_a_break(text, at),
        header_ends_at(splice(text, at, label_header(inserted)), number, end),
    ensures
        ({
            let length = label_header(inserted).len();
            ||| end < at && header_ends_at(text, number, end)
            ||| number == inserted && end == at + length - 1
            ||| at + length <= end + 1 - label_header(number).len() && header_ends_at(
                text,
                number,
                end - length,
            )
        }),
{
    let piece = label_header(inserted);
    let length = piece.len() as int;
    let header = label_header(number);
    let start = end + 1 - header.len();
    let after = splice(text, at, piece);
    lemma_splice_bytes(text, at, piece);
    lemma_header_shape(inserted);
    lemma_header_shape(number);
    lemma_header_letters(inserted);
    lemma_header_letters(number);
    lemma_header_bytes(after, number, end);
    if end < at {
        lemma_header_before_splice(text, at, piece, number, end);
    } else if start >= at + length {
        lemma_header_behind_splice(text, at, piece, number, end - length);
    } else if start < at {
        // the header would hold the first letter of the piece behind its own
        assert(after[at] == piece[0]);
        assert(after[start + (at - start)] == header[at - start]);
        assert(false);
    } else {
        // the header begins within the piece, so at its start
        assert(after[start] == piece[start - at]);
        assert(after[start + 0] == header[0]);
        assert(start == at);
        if header.len() < length {
            assert(after[start + (header.len() - 1)] == header[header.len() - 1]);
            assert(after[at + (header.len() - 1)] == piece[header.len() - 1]);
            assert(false);
        } else if header.len() > length {
            assert(after[start + (length - 1)] == header[length - 1]);
            assert(after[at + (length - 1)] == piece[length - 1]);
            assert(false);
        }
        assert(header_ends_at(after, inserted, end)) by {
            assert(after.subrange(at, at + length) =~= piece);
        }
        lemma_headers_at_one_end(after, number, inserted, end);
    }
}

/// Whether the header of the label of `target` can be put into `text` at
/// the offset `at`: the headers in the text are those of the labels marked
/// as inserted, the label is not marked so, and the offset stands behind a
/// break.
pub open spec fn can_insert(
    text: Seq<u8>,
    labels: Map<usize, Label>,
    at: int,
    target: usize,
) -> bool {
    &&& headers_owned(text, labels)
    &&& labels.dom().contains(target)
    &&& !labels[target].inserted
    &&& follows_a_break(text, at)
}

/// `text` with the header of the label of `target` put in at `at`.
pub open spec fn with_header(
    text: Seq<u8>,
    labels: Map<usize, Label>,
    at: int,
    target: usize,
) -> Seq<u8> {
    splice(text, at, label_header(labels[target].number))
}

/// `labels` with the label of `target` marked as inserted.
pub open spec fn with_mark(labels: Map<usize, Label>, target: usize) -> Map<usize, Label> {
    labels.insert(target, Label { inserted: true, ..labels[target] })
}

/// Where the byte at `place` of a text stands when `length` bytes were put
/// in at `at`.
pub open spec fn behind_insertion(place: int, at: int, length: int) -> int {
    if place < at {
        place
    } else {
        place + length
    }
}

/// The header that was put in stands in the text, and the label owns it.
proof fn lemma_inserted_header_owned(
    text: Seq<u8>,
    labels: Map<usize, Label>,
    at: int,
    target: usize,
)
    requires
        can_insert(text, labels, at, target),
    ensures
        owns(
            with_header(text, labels, at, target),
            with_mark(labels, target),
            target,
            at + label_header(labels[target].number).len() - 1,
        ),
        numbers_differ(with_mark(labels, target)),
{
    let number = labels[target].number;
    let piece = label_header(number);
    let after = with_header(text, labels, at, target);
    let marked = with_mark(labels, target);
    lemma_splice_bytes(text, at, piece);
    lemma_header_shape(number);
    assert(after.subrange(at, at + piece.len()) =~= piece);
    assert forall|a: usize, b: usize|
        #![trigger marked[a], marked[b]]
        marked.dom().contains(a) && marked.dom().contains(b) && marked[a].number
            == marked[b].number implies a == b by {
        assert(marked[a].number == labels[a].number);
        assert(marked[b].number == labels[b].number);
    }
}

/// A header of the text before stands in the text after, moved on if it
/// stood at the offset or behind it.
proof fn lemma_owned_header_stays(
    text: Seq<u8>,
    labels: Map<usize, Label>,
    at: int,
    target: usize,
    other: usize,
    end: int,
)
    requires
        can_insert(text, labels, at, target),
        owns(text, labels, other, end),
    ensures
        other != target,
        owns(
            with_header(text, labels, at, target),
            with_mark(labels, target),
            other,
            behind_insertion(end, at, label_header(labels[target].number).len() as int),
        ),
{
    let piece = label_header(labels[target].number);
    let after = with_header(text, labels, at, target);
    if end < at {
        lemma_header_before_splice(text, at, piece, labels[other].number, end);
        lemma_header_bytes(after, labels[other].number, end);
    } else {
        lemma_header_behind_break(text, labels[other].number, end, at);
        lemma_header_behind_splice(text, at, piece, labels[other].number, end);
        lemma_header_bytes(after, labels[other].number, end + piece.len());
    }
}

/// A header of the text after is the one that was put in, or stood in
/// the text before.
proof fn lemma_owned_header_stood(
    text: Seq<u8>,
    labels: Map<usize, Label>,
    at: int,
    target: usize,
    other: usize,
    end: int,
)
    requires
        can_insert(text, labels, at, target),
        owns(with_header(text, labels, at, target), with_mark(labels, target), other, end),
    ensures
        ({
            let length = label_header(labels[target].number).len() as int;
            if other == target {
                end == at + length - 1
            } else {
                exists|before: int|
                    owns(text, labels, other, before) && end == behind_insertion(
                        before,
                        at,
                        length,
                    )
            }
        }),
{
    let number = labels[target].number;
    let length = label_header(number).len() as int;
    let marked = with_mark(labels, target);
    lemma_header_in_splice(text, at, number, marked[other].number, end);
    if !(marked[other].number == number && end == at + length - 1) {
        let before = if end < at {
            end
        } else {
            end - length
        };
        lemma_header_bytes(text, marked[other].number, before);
        if other == target {
            let owner = choose|owner: usize| owns(text, labels, owner, before);
            lemma_headers_at_one_end(text, labels[owner].number, number, before);
            assert(false);
        }
        assert(owns(text, labels, other, before));
        assert(end == behind_insertion(before, at, length));
    }
}

/// A colon before a newline in the text after ends the header that was
/// put in, or stood in the text before.
proof fn lemma_header_end_stood(
    text: Seq<u8>,
    labels: Map<usize, Label>,
    at: int,
    target: usize,
    end: int,
)
    requires
        can_insert(text, labels, at, target),
        is_header_end(with_header(text, labels, at, target), end),
    ensures
        ({
            let length = label_header(labels[target].number).len() as int;
            ||| end == at + length - 1
            ||| exists|before: int|
                is_header_end(text, before) && end == behind_insertion(before, at, length)
        }),
{
    let number = labels[target].number;
    let piece = label_header(number);
    let length = piece.len() as int;
    let after = with_header(text, labels, at, target);
    lemma_splice_bytes(text, at, piece);
    lemma_header_shape(number);
    lemma_header_letters(number);
    if end != at + length - 1 {
        if end < at {
            assert(is_header_end(text, end));
            assert(end == behind_insertion(end, at, length));
        } else {
            if end < at + length {
                assert(after[end] == piece[end - at]);
                assert(false);
            }
            if end == at + length {
                assert(after[end - 1] == piece[length - 1]);
                assert(false);
            }
            let before = end - length;
            assert(is_header_end(text, before));
            assert(end == behind_insertion(before, at, length));
        }
    }
}

/// When the header of a label that has none is put into the text at an
/// offset behind a break, and the label is marked as inserted, the headers
/// in the text are again those of the labels marked as inserted, each once.
pub proof fn lemma_insert_header(text: Seq<u8>, labels: Map<usize, Label>, at: int, target: usize)
    requires
        can_insert(text, labels, at, target),
    ensures
        headers_owned(with_header(text, labels, at, target), with_mark(labels, target)),
{
    let length = label_header(labels[target].number).len() as int;
    let after = with_header(text, labels, at, target);
    let marked = with_mark(labels, target);
    lemma_inserted_header_owned(text, labels, at, target);
    assert forall|end: int| #[trigger] is_header_end(after, end) implies exists|other: usize|
        owns(after, marked, other, end) by {
        lemma_header_end_stood(text, labels, at, target, end);
        if end == at + length - 1 {
            assert(owns(after, marked, target, end));
        } else {
            let before = choose|before: int|
                is_header_end(text, before) && end == behind_insertion(before, at, length);
            let other = choose|other: usize| owns(text, labels, other, before);
            lemma_owned_header_stays(text, labels, at, target, other, before);
        }
    }
    assert forall|other: usize|
        marked.dom().contains(other) && (#[trigger] marked[other]).inserted implies exists|
        end: int,
    | owns(after, marked, other, end) by {
        if other == target {
            assert(owns(after, marked, target, at + length - 1));
        } else {
            assert(labels.dom().contains(other) && labels[other].inserted);
            let end = choose|end: int| owns(text, labels, other, end);
            lemma_owned_header_stays(text, labels, at, target, other, end);
        }
    }
    assert forall|other: usize, first: int, second: int|
        owns(after, marked, other, first) && owns(after, marked, other, second) implies first
            == second by {
        lemma_owned_header_stood(text, labels, at, target, other, first);
        lemma_owned_header_stood(text, labels, at, target, other, second);
        if other != target {
            let first_before = choose|before: int|
                owns(text, labels, other, before) && first == behind_insertion(
                    before,
                    at,
                    length,
                );
            let second_before = choose|before: int|
                owns(text, labels, other, before) && second == behind_insertion(
                    before,
                    at,
                    length,
                );
            assert(first_before == second_before);
        }
    }
}

/// Whether `piece` holds neither a newline nor a colon.
pub open spec fn quiet(piece: Seq<u8>) -> bool {
    forall|i: int| 0 <= i < piece.len() ==> piece[i] != 10 && piece[i] != 58
}

/// The digits of a number hold neither newline nor colon.
pub proof fn lemma_decimal_quiet(n: nat)
    ensures
        quiet(decimal(n)),
        decimal(n).len() > 0,
{
    lemma_decimal_digits(n);
}

/// A signed number in decimal holds neither newline nor colon.
pub proof fn lemma_signed_decimal_quiet(v: int)
    ensures
        quiet(signed_decimal(v)),
        quiet(sign_and_decimal(v)),
        signed_decimal(v).len() > 0,
        sign_and_decimal(v).len() > 0,
{
    if v < 0 {
        lemma_decimal_quiet((-v) as nat);
    } else {
        lemma_decimal_quiet(v as nat);
    }
}

/// The hexadecimal digits of a number hold neither newline nor colon.
pub proof fn lemma_hexadecimal_quiet(n: nat)
    ensures
        quiet(hexadecimal(n)),
    decreases n,
{
    if n >= 16 {
        lemma_hexadecimal_quiet(n / 16);
    }
}

/// A hexadecimal literal holds neither newline nor colon.
pub proof fn lemma_hex_literal_quiet(n: nat, digits: nat)
    ensures
        quiet(hex_literal(n, digits)),
        hex_literal(n, digits).len() > 0,
{
    lemma_hexadecimal_quiet(n);
}

/// The bits of the first `count` bytes of `input`, each with its space,
/// hold neither newline nor colon.
pub proof fn lemma_octets_quiet(input: Seq<u8>, count: nat)
    ensures
        quiet(octets_text(input, count)),
    decreases count,
{
    reveal_strlit(" ");
    if count > 0 {
        lemma_octets_quiet(input, (count - 1) as nat);
        assert(quiet(octet_text(input[count - 1])));
    }
}

/// The names of the registers and of the address forms hold neither
/// newline nor colon, and are not empty.
pub proof fn lemma_names_quiet(index: u8)
    ensures
        quiet(ascii(word_register_name(index))),
        quiet(ascii(byte_register_name(index))),
        quiet(ascii(segment_register_name(index))),
        quiet(ascii(effective_address_name(index))),
        word_register_name(index).len() > 0,
        byte_register_name(index).len() > 0,
        segment_register_name(index).len() > 0,
        effective_address_name(index).len() > 0,
        effective_address_name(index)[0] == '[',
{
    reveal_strlit("ax");
    reveal_strlit("cx");
    reveal_strlit("dx");
    reveal_strlit("bx");
    reveal_strlit("sp");
    reveal_strlit("bp");
    reveal_strlit("si");
    reveal_strlit("di");
    reveal_strlit("al");
    reveal_strlit("cl");
    reveal_strlit("dl");
    reveal_strlit("bl");
    reveal_strlit("ah");
    reveal_strlit("ch");
    reveal_strlit("dh");
    reveal_strlit("bh");
    reveal_strlit("es");
    reveal_strlit("cs");
    reveal_strlit("ss");
    reveal_strlit("ds");
    reveal_strlit("[bx+si");
    reveal_strlit("[bx+di");
    reveal_strlit("[bp+si");
    reveal_strlit("[bp+di");
    reveal_strlit("[si");
    reveal_strlit("[di");
    reveal_strlit("[bp");
    reveal_strlit("[bx");
}

/// A mnemonic and the space behind it hold neither newline nor colon.
pub proof fn lemma_mnemonic_quiet(opcode: Opcode)
    ensures
        quiet(ascii(opcode.mnemonic()) + ascii(" "@)),
        (ascii(opcode.mnemonic()) + ascii(" "@)).len() > 0,
        (ascii(opcode.mnemonic()) + ascii(" "@)).last() == 32,
{
    reveal_strlit(" ");
    opcode.lemma_mnemonic_lowercase();
    let name = opcode.mnemonic();
    assert forall|i: int| 0 <= i < name.len() implies ascii(name)[i] != 10 && ascii(name)[i]
        != 58 by {
        assert(is_mnemonic_char(name[i]));
    }
}

/// The words that stand between the operands of a line hold neither
/// newline nor colon.
pub proof fn lemma_words_quiet()
    ensures
        quiet(ascii(", "@)),
        quiet(ascii("word "@)),
        quiet(ascii("byte "@)),
        quiet(ascii("far "@)),
        quiet(ascii("cl"@)),
        quiet(ascii("1"@)),
        quiet(ascii("lock "@)),
        quiet(ascii("rep "@)),
        quiet(ascii("; "@)),
        quiet(ascii(" "@)),
        quiet(ascii("["@)),
        quiet(ascii("]"@)),
        ascii("lock "@).last() == 32,
        ascii("rep "@).last() == 32,
        ascii("; "@).last() == 32,
        ascii(":"@) == seq![58u8],
        ascii("]"@) == seq![93u8],
{
    reveal_strlit(", ");
    reveal_strlit("word ");
    reveal_strlit("byte ");
    reveal_strlit("far ");
    reveal_strlit("cl");
    reveal_strlit("1");
    reveal_strlit("lock ");
    reveal_strlit("rep ");
    reveal_strlit("; ");
    reveal_strlit(" ");
    reveal_strlit("[");
    reveal_strlit("]");
    reveal_strlit(":");
    assert(ascii(":"@) =~= seq![58u8]);
    assert(ascii("]"@) =~= seq![93u8]);
}

/// The reference to a label holds neither newline nor colon.
pub proof fn lemma_reference_quiet(number: usize)
    ensures
        quiet(label_reference(number)),
        label_reference(number).len() > 0,
{
    reveal_strlit("loc_");
    lemma_decimal_quiet(number as nat);
}

/// The text of an operand holds no newline and does not end in a colon:
/// the colon of a segment override stands before a bracket.
pub proof fn lemma_operand_plain(view: WriterView, instruction: Instruction, rm: RM)
    requires
        rm.wf(),
        view.segment == NO_SEGMENT || view.segment < 4,
    ensures
        plain(view.operand_text(instruction, rm)),
        view.operand_text(instruction, rm).len() > 0,
{
    lemma_words_quiet();
    match rm {
        RM::Reg(register) => {
            lemma_names_quiet(register.index());
        },
        RM::Eff(effective) => {
            lemma_names_quiet(effective);
            lemma_names_quiet(view.segment);
            lemma_signed_decimal_quiet(instruction.disp as int);
            let memory = memory_operand_text(instruction, effective);
            assert(quiet(memory));
            assert(memory.len() > 0 && memory.last() == 93);
            let with_segment = segment_override_text(view.segment) + memory;
            assert(with_segment.last() == memory.last());
            assert forall|i: int| 0 <= i < with_segment.len() implies with_segment[i] != 10 by {
                if view.segment != NO_SEGMENT {
                    let name = ascii(segment_register_name(view.segment));
                    if i < name.len() {
                        assert(with_segment[i] == name[i]);
                    } else if i == name.len() {
                        assert(with_segment[i] == 58);
                    } else {
                        assert(with_segment[i] == memory[i - name.len() - 1]);
                    }
                }
            }
        },
    }
}

/// The comment that shows the bytes of an instruction holds neither
/// newline nor colon, and ends in a space.
pub proof fn lemma_input_comment_quiet(view: WriterView, instruction: Instruction)
    ensures
        quiet(view.input_comment(instruction)),
        view.input_comment(instruction).len() > 0,
        view.input_comment(instruction).last() == 32,
{
    lemma_words_quiet();
    reveal_strlit("; ");
    reveal_strlit(" ");
    lemma_octets_quiet(instruction.input@, instruction.length as nat);
    let bytes = octets_text(instruction.input@, instruction.length as nat);
    assert(bytes.len() > 0 ==> bytes.last() == 32);
    let segment = octet_text(segment_prefix_byte(view.segment));
    let lock = octet_text(0xf0);
    let repeat = octet_text(view.repeat);
    assert(quiet(segment) && segment.last() == 32);
    assert(quiet(lock) && lock.last() == 32);
    assert(quiet(repeat) && repeat.last() == 32);
}

/// An offset behind a break is still behind a break when a piece is
/// appended to the text.
pub proof fn lemma_break_kept_by_append(text: Seq<u8>, piece: Seq<u8>, at: int)
    requires
        follows_a_break(text, at),
    ensures
        follows_a_break(text + piece, at),
{
}

/// An offset behind a break is still behind a break, moved on if it stood
/// at the place of the insertion or behind it, when a piece that ends in a
/// newline is put into the text.
pub proof fn lemma_break_kept_by_insertion(text: Seq<u8>, at: int, piece: Seq<u8>, place: int)
    requires
        0 <= at <= text.len(),
        follows_a_break(text, place),
        piece.len() > 0,
        piece.last() == 10,
    ensures
        follows_a_break(
            splice(text, at, piece),
            behind_insertion(place, at, piece.len() as int),
        ),
{
    lemma_splice_bytes(text, at, piece);
    let after = splice(text, at, piece);
    let moved = behind_insertion(place, at, piece.len() as int);
    if moved > 0 {
        if place < at {
            assert(after[moved - 1] == text[place - 1]);
        } else if place == at {
            assert(after[moved - 1] == piece[piece.len() - 1]);
        } else {
            assert(after[moved - 1] == text[place - 1]);
        }
    }
}

impl WriterView {
    /// Whether every instruction written, and the one being written,
    /// stands in the text behind a break.
    pub open spec fn records_follow_breaks(self) -> bool {
        &&& forall|i: int|
            0 <= i < self.instructions.len() ==> follows_a_break(
                self.buffer,
                (#[trigger] self.instructions[i]).start_file_index as int,
            )
        &&& self.current_instruction matches Some(current) ==> follows_a_break(
            self.buffer,
            current.start_file_index as int,
        )
    }

    /// Whether the headers in the text are in order: they are those of the
    /// labels marked as inserted, each once; the text does not end in a
    /// colon; and every instruction stands behind a break.
    pub open spec fn headers_in_order(self) -> bool {
        &&& self.labels.dom().finite()
        &&& self.labels.len() <= self.buffer.len() <= usize::MAX
        &&& self.labels_numbered()
        &&& self.segment == NO_SEGMENT || self.segment < 4
        &&& headers_owned(self.buffer, self.labels)
        &&& ends_without_colon(self.buffer)
        &&& self.records_follow_breaks()
    }

    /// Whether the text is empty or ends in a newline.
    pub open spec fn between_lines(self) -> bool {
        self.buffer.len() == 0 || self.buffer.last() == 10
    }

    /// A piece appended within a line leaves the headers in order.
    pub proof fn lemma_append_in_order(self, piece: Seq<u8>)
        requires
            self.headers_in_order(),
            plain(piece),
            self.buffer.len() + piece.len() <= usize::MAX,
        ensures
            self.append(piece).headers_in_order(),
            self.append(piece).labels == self.labels,
    {
        lemma_append_plain(self.buffer, self.labels, piece);
        let after = self.append(piece);
        assert forall|i: int| 0 <= i < after.instructions.len() implies follows_a_break(
            after.buffer,
            (#[trigger] after.instructions[i]).start_file_index as int,
        ) by {
            lemma_break_kept_by_append(
                self.buffer,
                piece,
                self.instructions[i].start_file_index as int,
            );
        }
    }

    /// The end of a line leaves the headers in order.
    pub proof fn lemma_end_line_in_order(self)
        requires
            self.headers_in_order(),
            self.buffer.len() < usize::MAX,
        ensures
            self.end_line().headers_in_order(),
            self.end_line().between_lines(),
            self.end_line().labels == self.labels,
    {
        lemma_append_newline(self.buffer, self.labels);
        let after = self.end_line();
        assert(after.buffer =~= self.buffer + seq![10u8]);
        assert forall|i: int| 0 <= i < after.instructions.len() implies follows_a_break(
            after.buffer,
            (#[trigger] after.instructions[i]).start_file_index as int,
        ) by {
            lemma_break_kept_by_append(
                self.buffer,
                seq![10u8],
                self.instructions[i].start_file_index as int,
            );
        }
    }

    /// The header of the label that waits for the line, written at its top,
    /// leaves the headers in order.
    pub proof fn lemma_pending_label_in_order(self)
        requires
            self.headers_in_order(),
            self.between_lines(),
            self.write_pending_label().buffer.len() <= usize::MAX,
        ensures
            self.write_pending_label().headers_in_order(),
            self.write_pending_label().between_lines(),
    {
        let target = self.current_index as usize;
        if self.labels.dom().contains(target) && !self.labels[target].inserted {
            let label = self.labels[target];
            let header = label_header(label.number);
            let after = self.write_pending_label();
            lemma_header_shape(label.number);
            lemma_insert_header(self.buffer, self.labels, self.buffer.len() as int, target);
            assert(splice(self.buffer, self.buffer.len() as int, header) =~= self.buffer + header);
            assert(after.labels.dom() =~= self.labels.dom());
            assert(after.labels_numbered()) by {
                assert forall|a: usize, b: usize|
                    #![trigger after.labels[a], after.labels[b]]
                    after.labels.dom().contains(a) && after.labels.dom().contains(b)
                        && after.labels[a].number == after.labels[b].number implies a == b by {
                    assert(after.labels[a].number == self.labels[a].number);
                    assert(after.labels[b].number == self.labels[b].number);
                }
                assert forall|other: usize| #[trigger]
                    after.labels.dom().contains(other) implies after.labels[other].number
                    < after.labels.len() by {
                    assert(after.labels[other].number == self.labels[other].number);
                }
            }
            assert forall|i: int| 0 <= i < after.instructions.len() implies follows_a_break(
                after.buffer,
                (#[trigger] after.instructions[i]).start_file_index as int,
            ) by {
                lemma_break_kept_by_append(
                    self.buffer,
                    header,
                    self.instructions[i].start_file_index as int,
                );
            }
        }
    }

    /// A prefix, which is recorded where the text ends, leaves the headers
    /// in order.
    pub proof fn lemma_prefix_in_order(self)
        requires
            self.headers_in_order(),
            self.between_lines(),
        ensures
            self.push_prefix_instruction().headers_in_order(),
            self.push_prefix_instruction().between_lines(),
    {
        let after = self.push_prefix_instruction();
        assert forall|i: int| 0 <= i < after.instructions.len() implies follows_a_break(
            after.buffer,
            (#[trigger] after.instructions[i]).start_file_index as int,
        ) by {
            if i < self.instructions.len() {
                assert(after.instructions[i] == self.instructions[i]);
            }
        }
    }

    /// The text of an operand leaves the headers in order.
    pub proof fn lemma_write_operand_in_order(self, instruction: Instruction, rm: RM)
        requires
            self.headers_in_order(),
            rm.wf(),
            self.write_operand(instruction, rm).buffer.len() <= usize::MAX,
        ensures
            self.write_operand(instruction, rm).headers_in_order(),
            self.write_operand(instruction, rm).labels == self.labels,
    {
        lemma_operand_plain(self, instruction, rm);
        let used = self.after_operand(rm);
        assert(used.headers_in_order());
        used.lemma_append_in_order(self.operand_text(instruction, rm));
    }

    /// Whether the end of the text stands behind a break.
    pub open spec fn ends_in_break(self) -> bool {
        follows_a_break(self.buffer, self.buffer.len() as int)
    }

    /// The comment that shows the bytes of an instruction leaves the
    /// headers in order.
    pub proof fn lemma_comment_in_order(self, instruction: Instruction)
        requires
            self.headers_in_order(),
            self.write_instruction_input(instruction).buffer.len() <= usize::MAX,
        ensures
            self.write_instruction_input(instruction).headers_in_order(),
            self.write_instruction_input(instruction).between_lines(),
            self.write_instruction_input(instruction).labels == self.labels,
    {
        lemma_input_comment_quiet(self, instruction);
        self.lemma_append_in_order(self.input_comment(instruction));
        self.append(self.input_comment(instruction)).lemma_end_line_in_order();
    }

    /// The prefixes that are written before a mnemonic leave the headers
    /// in order, and the mnemonic stands behind a break.
    pub proof fn lemma_prefixes_in_order(self)
        requires
            self.headers_in_order(),
            self.between_lines(),
            self.write_prefixes().buffer.len() <= usize::MAX,
        ensures
            self.write_prefixes().headers_in_order(),
            self.write_prefixes().ends_in_break(),
            self.write_prefixes().labels == self.labels,
    {
        lemma_words_quiet();
        let locked = if self.lock {
            WriterView { lock: false, ..self.append(ascii("lock "@)) }
        } else {
            self
        };
        if self.lock {
            self.lemma_append_in_order(ascii("lock "@));
            assert(locked.headers_in_order());
        }
        assert(locked.ends_in_break());
        if locked.repeat != 0 {
            locked.lemma_append_in_order(ascii("rep "@));
        }
    }

    /// The beginning of a line leaves the headers in order.
    pub proof fn lemma_start_instruction_in_order(self, instruction: Instruction)
        requires
            self.headers_in_order(),
            self.between_lines(),
            self.start_instruction(instruction).buffer.len() <= usize::MAX,
        ensures
            self.start_instruction(instruction).headers_in_order(),
            self.start_instruction(instruction).current_instruction is Some,
    {
        let labelled = self.write_pending_label();
        let commented = if labelled.verbose {
            labelled.write_instruction_input(instruction)
        } else {
            labelled
        };
        let prefixed = commented.write_prefixes();
        let started = self.start_instruction(instruction);
        let mnemonic = ascii(instruction.opcode.mnemonic()) + ascii(" "@);
        lemma_mnemonic_quiet(instruction.opcode);
        assert(started.buffer =~= prefixed.buffer + mnemonic);
        self.lemma_pending_label_in_order();
        if labelled.verbose {
            labelled.lemma_comment_in_order(instruction);
        }
        commented.lemma_prefixes_in_order();
        let appended = prefixed.append(mnemonic);
        prefixed.lemma_append_in_order(mnemonic);
        assert(started.buffer == appended.buffer);
        assert(started.labels == appended.labels);
        assert(started.records_follow_breaks()) by {
            assert forall|i: int| 0 <= i < started.instructions.len() implies follows_a_break(
                started.buffer,
                (#[trigger] started.instructions[i]).start_file_index as int,
            ) by {
                if i < prefixed.instructions.len() {
                    assert(started.instructions[i] == appended.instructions[i]);
                } else {
                    lemma_break_kept_by_append(
                        prefixed.buffer,
                        mnemonic,
                        prefixed.buffer.len() as int,
                    );
                }
            }
            lemma_break_kept_by_append(prefixed.buffer, mnemonic, prefixed.buffer.len() as int);
        }
    }

    /// The operand of a jump, and the header that is inserted for it if it
    /// leads backwards, leave the headers in order.
    pub proof fn lemma_jump_in_order(self, displacement: i16)
        requires
            self.headers_in_order(),
            self.current_instruction is Some,
            self.write_jump_displacement(displacement).buffer.len() <= usize::MAX,
        ensures
            self.write_jump_displacement(displacement).headers_in_order(),
    {
        let target = self.jump_target(displacement) as usize;
        let label = self.label_of(target);
        let reference = label_reference(label.number);
        let referenced = WriterView {
            buffer: self.buffer + reference,
            labels: self.labels.insert(target, label),
            ..self
        };
        lemma_reference_quiet(label.number);
        self.lemma_append_in_order(reference);
        let appended = self.append(reference);
        assert(referenced.labels_numbered() && referenced.labels.dom().finite()
            && referenced.labels.len() <= referenced.buffer.len()) by {
            if self.labels.dom().contains(target) {
                assert(referenced.labels =~= self.labels);
            } else {
                assert(referenced.labels.dom() =~= self.labels.dom().insert(target));
                assert(referenced.labels.len() == self.labels.len() + 1);
            }
        }
        lemma_label_without_header(appended.buffer, self.labels, target, label);
        assert(referenced.headers_in_order()) by {
            assert(referenced.buffer == appended.buffer);
            assert(referenced.instructions == appended.instructions);
        }
        if !(displacement >= 0 || label.inserted) {
            let after = referenced.insert_label(target, label);
            let header = label_header(label.number);
            let at = referenced.insertion_point(target);
            lemma_header_shape(label.number);
            lemma_last_starting_at(referenced.instructions, target as int);
            assert(follows_a_break(referenced.buffer, at));
            lemma_insert_header(referenced.buffer, referenced.labels, at, target);
            lemma_splice_bytes(referenced.buffer, at, header);
            assert(after.labels == with_mark(referenced.labels, target));
            assert(after.labels.dom() =~= referenced.labels.dom());
            assert(after.labels_numbered()) by {
                assert forall|a: usize, b: usize|
                    #![trigger after.labels[a], after.labels[b]]
                    after.labels.dom().contains(a) && after.labels.dom().contains(b)
                        && after.labels[a].number == after.labels[b].number implies a == b by {
                    assert(after.labels[a].number == referenced.labels[a].number);
                    assert(after.labels[b].number == referenced.labels[b].number);
                }
                assert forall|other: usize| #[trigger]
                    after.labels.dom().contains(other) implies after.labels[other].number
                    < after.labels.len() by {
                    assert(after.labels[other].number == referenced.labels[other].number);
                }
            }
            assert(after.records_follow_breaks()) by {
                assert forall|i: int| 0 <= i < after.instructions.len() implies follows_a_break(
                    after.buffer,
                    (#[trigger] after.instructions[i]).start_file_index as int,
                ) by {
                    lemma_break_kept_by_insertion(
                        referenced.buffer,
                        at,
                        header,
                        referenced.instructions[i].start_file_index as int,
                    );
                }
                lemma_break_kept_by_insertion(
                    referenced.buffer,
                    at,
                    header,
                    referenced.current_instruction->0.start_file_index as int,
                );
            }
        }
    }
}

/// The header of a label stands in the text exactly once if the label is
/// marked as inserted, and nowhere if it is not.
pub proof fn lemma_header_once(text: Seq<u8>, labels: Map<usize, Label>, target: usize)
    requires
        headers_owned(text, labels),
        labels.dom().contains(target),
    ensures
        labels[target].inserted ==> exists|start: int|
            stands_once_at(text, labels[target].number, start),
        !labels[target].inserted ==> forall|start: int|
            !header_stands_at(text, labels[target].number, start),
{
    let number = labels[target].number;
    let length = label_header(number).len() as int;
    lemma_header_shape(number);
    assert forall|start: int| header_stands_at(text, number, start) implies owns(
        text,
        labels,
        target,
        start + length - 1,
    ) by {
        let end = start + length - 1;
        assert(header_ends_at(text, number, end));
        lemma_header_bytes(text, number, end);
        let owner = choose|owner: usize| owns(text, labels, owner, end);
        lemma_headers_at_one_end(text, labels[owner].number, number, end);
        assert(owner == target);
    }
    if labels[target].inserted {
        let end = choose|end: int| owns(text, labels, target, end);
        let start = end + 1 - length;
        assert(header_stands_at(text, number, start));
        assert forall|other: int| header_stands_at(text, number, other) implies other
            == start by {
            assert(owns(text, labels, target, other + length - 1));
        }
        assert(stands_once_at(text, number, start));
    } else {
        assert forall|start: int| !header_stands_at(text, number, start) by {
            if header_stands_at(text, number, start) {
                assert(owns(text, labels, target, start + length - 1));
            }
        }
    }
}

} // verus!
