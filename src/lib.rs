//! An interpreter core for the CHIP-8 virtual machine: machine state,
//! instruction decoding and execution, sprite drawing and timers.

pub mod instruction;
pub mod machine;
pub mod laws;
pub mod keymap;
