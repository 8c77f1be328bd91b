//! The flag bits of an instruction record and their tests.
//!
//! A flag byte is read as a number: the flag of weight `w` is set when
//! `(flags / w) % 2` is one. The contracts below are stated in that arithmetic.
use vstd::prelude::*;

verus! {

/// The instruction operates on words.
pub const WORD: u8 = 1;

/// An 8-bit immediate is sign-extended to 16 bits when `WORD` is set.
pub const SIGN: u8 = 2;

/// The `reg` field names the destination; otherwise it names the source.
pub const DIRECTION: u8 = 4;

/// The shift or rotate count is in `CL`; otherwise it is one.
pub const SHIFT_ROTATE: u8 = 8;

/// Repeat while the zero flag is set; otherwise while it is clear.
pub const ZERO: u8 = 16;

/// All five flags.
pub const SET: u8 = 31;

/// Whether the word flag is set.
pub open spec fn spec_has_word_flag(flags: u8) -> bool {
    flags % 2 == 1
}

/// Whether the sign flag is set.
pub open spec fn spec_has_sign_flag(flags: u8) -> bool {
    (flags / 2) % 2 == 1
}

/// Whether the direction flag is set.
pub open spec fn spec_has_direction_flag(flags: u8) -> bool {
    (flags / 4) % 2 == 1
}

/// Whether the shift and rotate flag is set.
pub open spec fn spec_has_shift_rotate_flag(flags: u8) -> bool {
    (flags / 8) % 2 == 1
}

/// Whether the word flag is set.
#[verifier::when_used_as_spec(spec_has_word_flag)]
pub fn has_word_flag(flags: u8) -> (set: bool)
    ensures
        set == spec_has_word_flag(flags),
{
    assert((flags & 1 == 1) == (flags % 2 == 1)) by (bit_vector);
    flags & WORD == WORD
}

/// Whether the sign flag is set.
#[verifier::when_used_as_spec(spec_has_sign_flag)]
pub fn has_sign_flag(flags: u8) -> (set: bool)
    ensures
        set == spec_has_sign_flag(flags),
{
    assert((flags & 2 == 2) == ((flags / 2) % 2 == 1)) by (bit_vector);
    flags & SIGN == SIGN
}

/// Whether the direction flag is set.
#[verifier::when_used_as_spec(spec_has_direction_flag)]
pub fn has_direction_flag(flags: u8) -> (set: bool)
    ensures
        set == spec_has_direction_flag(flags),
{
    assert((flags & 4 == 4) == ((flags / 4) % 2 == 1)) by (bit_vector);
    flags & DIRECTION == DIRECTION
}

/// Whether the shift and rotate flag is set.
#[verifier::when_used_as_spec(spec_has_shift_rotate_flag)]
pub fn has_shift_rotate_flag(flags: u8) -> (set: bool)
    ensures
        set == spec_has_shift_rotate_flag(flags),
{
    assert((flags & 8 == 8) == ((flags / 8) % 2 == 1)) by (bit_vector);
    flags & SHIFT_ROTATE == SHIFT_ROTATE
}

/// `flags` with the word flag set.
pub open spec fn with_word(flags: u8) -> u8 {
    if spec_has_word_flag(flags) {
        flags
    } else {
        (flags + 1) as u8
    }
}

/// `flags` with the direction flag set.
pub open spec fn with_direction(flags: u8) -> u8 {
    if spec_has_direction_flag(flags) {
        flags
    } else {
        (flags + 4) as u8
    }
}

/// `flags` with the direction flag cleared.
pub open spec fn without_direction(flags: u8) -> u8 {
    if spec_has_direction_flag(flags) {
        (flags - 4) as u8
    } else {
        flags
    }
}

/// `flags` with the direction flag inverted.
pub open spec fn with_direction_inverted(flags: u8) -> u8 {
    if spec_has_direction_flag(flags) {
        (flags - 4) as u8
    } else {
        (flags + 4) as u8
    }
}

/// Sets the word flag.
pub fn set_word(flags: u8) -> (out: u8)
    ensures
        out == with_word(flags),
{
    assert(flags | 1 == if flags % 2 == 1 { flags } else { (flags + 1) as u8 }) by (bit_vector);
    flags | WORD
}

/// Sets the direction flag.
pub fn set_direction(flags: u8) -> (out: u8)
    ensures
        out == with_direction(flags),
{
    assert(flags | 4 == if (flags / 4) % 2 == 1 { flags } else { (flags + 4) as u8 })
        by (bit_vector);
    flags | DIRECTION
}

/// Clears the direction flag.
pub fn clear_direction(flags: u8) -> (out: u8)
    ensures
        out == without_direction(flags),
{
    assert(flags & !4u8 == if (flags / 4) % 2 == 1 { (flags - 4) as u8 } else { flags })
        by (bit_vector);
    flags & !DIRECTION
}

/// Inverts the direction flag.
pub fn invert_direction(flags: u8) -> (out: u8)
    ensures
        out == with_direction_inverted(flags),
{
    assert(flags ^ 4 == if (flags / 4) % 2 == 1 { (flags - 4) as u8 } else { (flags + 4) as u8 })
        by (bit_vector);
    flags ^ DIRECTION
}

} // verus!
