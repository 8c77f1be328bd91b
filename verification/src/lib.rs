//! A disassembler for the Intel 8086 instruction set.
//!
//! A flat image of machine code is decoded one instruction at a time
//! ([`parser::Parser`]) into fixed-size records ([`Instruction`]), and each
//! record is rendered by the [`writer::Writer`] as one line of NASM source,
//! with labels synthesised for the targets of relative jumps.
pub mod instructions;
pub mod text;
pub mod writer;
pub mod parser;
pub mod listing;

pub use crate::instructions::instruction::Instruction;
pub use crate::listing::run;
