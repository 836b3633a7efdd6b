//! Verified core of a CHIP-8 virtual machine: the machine state, the
//! instruction decoder, the 35 instruction executors, the fetch/decode/execute
//! engine, a 64x32 monochrome framebuffer and a 16-key keyboard latch.
//!
//! Host concerns (ROM files, terminal rendering, timing of the run loop) live
//! outside this crate; they drive the machine through the public operations
//! and render the framebuffer that the machine draws into.

pub mod console_screen;
pub mod cpu;
pub mod cpu_decoder;
pub mod cpu_instructions;
pub mod keyboard;
pub mod screen;
