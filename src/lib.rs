//! An interpreter for the CHIP-8 virtual machine: instruction decoding,
//! instruction semantics and the fetch/decode/execute/timer cycle, all
//! specified over a mathematical model of the machine.

pub mod opcode;
pub mod machine;
pub mod draw;
pub mod laws;
