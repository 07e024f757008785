//! A virtual machine for the classic 35-instruction CHIP-8 byte code: a
//! decoder from instruction words to operations, and an engine that applies
//! each operation to memory, registers, timers, the display and the keypad.

pub mod error;
pub mod opcode;
pub mod state;
pub mod cpu;
pub mod laws;
pub mod render;
pub mod cli;
