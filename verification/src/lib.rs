//! A verified interpreter core for a small fixed 8-bit instruction set:
//! memory, sixteen registers, a call stack, two countdown timers, a
//! monochrome framebuffer, and a fetch-decode-execute step driven once per
//! tick by a host loop.

pub mod cpu;
pub mod input;
pub mod laws;
pub mod model;
