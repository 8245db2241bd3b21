//! A small 8-bit virtual machine: a fixed instruction set over byte-addressed
//! memory, sixteen general registers, a call stack, two countdown timers, a
//! sixteen-key input pad and a monochrome 64x32 framebuffer.
//!
//! The crate holds the instruction decoder and the execution engine.
//! Presentation (rendering the framebuffer, polling input devices, reading
//! program files) is left to the host.

use vstd::prelude::*;

pub mod cpu;
pub mod instructions;
pub mod laws;

pub use cpu::CPU;
pub use instructions::Instructions;

verus! {

/// A fault raised by the engine. Every fault is reported to the caller of the
/// cycle function; the engine never aborts the process.
#[derive(Clone, Copy, PartialEq, Eq, Structural, Debug)]
pub enum Fault {
    /// The opcode matches none of the documented instruction forms.
    Decode { opcode: u16 },
    /// A fetch, read or write touched an address outside the 4096-byte
    /// memory; `addr` is the first address out of range.
    Memory { addr: usize },
    /// A draw would place part of its sprite outside the 64x32 grid;
    /// `x` and `y` are the sprite's origin.
    Screen { x: u8, y: u8 },
    /// A call would push beyond the maximum call depth of 16.
    StackOverflow,
    /// A return was attempted with an empty call stack.
    StackUnderflow,
    /// A key instruction named a key slot outside 0..16.
    Key { index: u8 },
    /// The program does not fit in the 3584 bytes above the load offset.
    Oversize { len: usize },
}

} // verus!
