//! A CHIP-8 virtual machine: memory, registers, call stack, timers, keypad,
//! framebuffer and the instruction engine, with every opcode handler verified
//! against an abstract model of the machine.

pub mod display;
pub mod model;
pub mod chip8;
pub mod keypad;
pub mod laws;

pub use chip8::Chip8CPU;
pub use keypad::{map_hex_value_to_key, HostKey};
pub use model::{Chip8Error, StepStatus};
