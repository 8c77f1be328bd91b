//! Indices of the four segment registers.
use vstd::prelude::*;

verus! {

/// `es`
pub const ES: u8 = 0b00;

/// `cs`
pub const CS: u8 = 0b01;

/// `ss`
pub const SS: u8 = 0b10;

/// `ds`
pub const DS: u8 = 0b11;

} // verus!
