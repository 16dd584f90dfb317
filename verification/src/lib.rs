//! A verified interpreter core for a classic 16-bit-opcode virtual machine:
//! a byte-addressed 8-bit computer with 4 KB of memory, sixteen general
//! registers, a 16-level call stack and two countdown timers.
//!
//! The instruction decoder and executor, the register file, the memory and
//! the frame scheduler's compute step live here with full contracts; the
//! terminal front end (rendering, key polling, frame pacing) sits outside
//! the library behind the [`screen::Interface`] capability trait.

pub mod chip;
pub mod screen;
