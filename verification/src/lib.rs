//! An interpreter for the CHIP-8 virtual machine: sixteen 8-bit registers,
//! 4 KiB of memory, a 64x32 monochrome display and a sixteen-key pad.

pub mod chip8;
pub mod instruction;
pub mod laws;
pub mod machine;

pub use chip8::Chip8;
pub use instruction::{Instruction, Target, Timing};
pub use machine::{Fault, KeyState, Machine, Operation, W_HEIGHT, W_WIDTH};
