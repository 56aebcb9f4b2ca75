//! A verified CHIP-8 virtual machine core.
//!
//! The crate models the architectural state of the machine — 4KB of memory,
//! sixteen 8-bit registers, an index register, a bounded call stack, a 64x32
//! monochrome framebuffer, a 16-key input latch and two countdown timers —
//! and a fetch-decode-execute engine over it. Every state transition is
//! specified and proved against a mathematical view of the state.
//!
//! Rendering the framebuffer, translating host key events to the sixteen
//! abstract key codes, and loading program images from storage are left to
//! the embedding program; the core exchanges only plain values with it.

pub mod decode;
pub mod display;
pub mod emu;
pub mod keyboard;
pub mod memory;
