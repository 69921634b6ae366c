//! Core of a small 8-bit virtual machine: an instruction decoder, a
//! monochrome framebuffer with toggle/collision semantics, a logical
//! keypad, and the execution engine that ties them together.

pub mod error;
pub mod opcodes;
pub mod screen;
pub mod keypad;
pub mod semantics;
pub mod cpu;
