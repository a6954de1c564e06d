//! A CHIP-8 virtual machine: memory, registers, stack, timers and framebuffer,
//! with a wall-clock-gated step function that executes the base instruction set.

pub mod chip8;
pub mod color;
pub mod constants;
pub mod decode;
pub mod semantics;
pub mod theorems;
pub mod debug;
