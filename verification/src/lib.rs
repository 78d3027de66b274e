//! A CHIP-8 virtual machine: memory, registers, call stack, timers and a
//! 64x32 monochrome framebuffer, driven one instruction per cycle.

pub mod display;
mod entropy;
pub mod error;
pub mod font;
pub mod laws;
pub mod machine;
pub mod opcode;
pub mod semantics;
pub mod stack;
pub mod state;
pub mod utility;

pub use crate::machine::Chip8;
