//! A CHIP-8 virtual machine core: a decoder for the 16-bit opcode set and a
//! machine that owns the CPU state (registers, memory, stack, timers, a
//! monochrome framebuffer and a 16-key latch) and executes one instruction
//! per step. Window, keyboard and file handling live outside this crate.

pub mod cpu;
pub mod draw;
pub mod input;
pub mod instruction;
