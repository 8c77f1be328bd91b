//! The four values of the two-bit `mod` field of a ModR/M byte.
use vstd::prelude::*;

verus! {

/// Memory operand without displacement (or a direct address when `r/m` is 110).
pub const MEMORY_MODE: u8 = 0b00;

/// Memory operand with a signed 8-bit displacement.
pub const BYTE_DISPLACEMENT: u8 = 0b01;

/// Memory operand with a signed 16-bit displacement.
pub const WORD_DISPLACEMENT: u8 = 0b10;

/// Register operand: `r/m` selects a register.
pub const REGISTER_MODE: u8 = 0b11;

} // verus!
