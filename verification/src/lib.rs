//! A CHIP-8 virtual machine core.
//!
//! The crate models the whole machine as plain data: a 4 KiB byte memory with
//! a fixed-capacity return stack, sixteen 8-bit registers, a 12-bit program
//! counter and 16-bit index register, a monochrome framebuffer drawn by XOR
//! sprites, two countdown timers, a 16-key pad with a press-then-release
//! handshake, and the configuration switches that select between the
//! historical interpreter behaviours. Every instruction is a verified state
//! transition; the host process supplies only time, events and presentation.

pub mod config;
pub mod cpu;
pub mod emulib;
pub mod gpu;
pub mod input;
pub mod instructions;
pub mod ram;
pub mod timer;
pub mod window;
