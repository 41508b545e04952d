//! An interpreter core for a fixed 8-bit virtual machine: 4096 bytes of
//! memory, sixteen 8-bit registers, a 16-entry call stack, a 64x32
//! monochrome framebuffer, a 16-key keypad and two countdown timers.
//! The machine fetches, decodes and executes one 16-bit instruction word
//! per step; every state transition is stated as a contract and verified.

pub mod exec;
pub mod isa;
pub mod laws;
pub mod machine;
