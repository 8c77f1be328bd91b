//! Indices of the eight effective-address forms selected by `r/m`.
use vstd::prelude::*;

verus! {

/// `[bx+si]`
pub const BX_PLUS_SI: u8 = 0b000;

/// `[bx+di]`
pub const BX_PLUS_DI: u8 = 0b001;

/// `[bp+si]`
pub const BP_PLUS_SI: u8 = 0b010;

/// `[bp+di]`
pub const BP_PLUS_DI: u8 = 0b011;

/// `[si]`
pub const SI: u8 = 0b100;

/// `[di]`
pub const DI: u8 = 0b101;

/// `[bp]`, or a 16-bit direct address when the mode is memory mode.
pub const BP_OR_DIRECT_ADDRESS: u8 = 0b110;

/// `[bx]`
pub const BX: u8 = 0b111;

} // verus!
