//! The instruction record, the opcode table, the resolver and the decoders
//! and emitters of every encoding family.
pub mod arithmetic;
pub mod common;
pub mod control_transfer;
pub mod data_transfer;
pub mod descriptions;
pub mod instruction;
pub mod lemmas;
pub mod logic;
pub mod mov;
pub mod opcode;
pub mod processor_control;
pub mod push_pop;
pub mod strings;

pub use descriptions::{resolve, Description};
