//! A CHIP-8 virtual machine core.
//!
//! The crate holds the interpreter for the classic 8-bit virtual machine:
//! sixteen general-purpose registers, a 4096-byte address space, a 64x32
//! monochrome framebuffer with XOR sprite drawing, a 16-key keypad, and two
//! countdown timers decremented at a 60 Hz cadence.  Every instruction's
//! effect on the machine state is stated against a mathematical model of
//! that state and proved.
//!
//! A host program is expected to load a ROM, run the fetch-decode-execute
//! cycle at a fixed rate, feed key events in, and present the framebuffer
//! and the tone cue out; those adapters live outside this crate.

pub mod config;
pub mod decode;
pub mod framebuffer;
pub mod interp;
pub mod keypad;
pub mod laws;

pub use config::{Action, Config, Keymap, Size};
pub use decode::Instr;
pub use framebuffer::Framebuffer;
pub use interp::Chip8;
pub use keypad::Keypad;
