//! Indices of the eight general registers, in their word form.
use vstd::prelude::*;

verus! {

/// `ax`, or `al` in byte form.
pub const AX: u8 = 0b000;

/// `cx`, or `cl` in byte form.
pub const CX: u8 = 0b001;

/// `dx`, or `dl` in byte form.
pub const DX: u8 = 0b010;

/// `bx`, or `bl` in byte form.
pub const BX: u8 = 0b011;

/// `sp`, or `ah` in byte form.
pub const SP: u8 = 0b100;

/// `bp`, or `ch` in byte form.
pub const BP: u8 = 0b101;

/// `si`, or `dh` in byte form.
pub const SI: u8 = 0b110;

/// `di`, or `bh` in byte form.
pub const DI: u8 = 0b111;

} // verus!
