//! A verified interpreter for an 8-bit "CHIP-8"-class virtual machine.
//!
//! The crate models the machine state (registers, memory, call stack, timers
//! and a packed monochrome frame buffer), executes one instruction at a time
//! through a fully specified decode-and-execute step, batches instructions
//! behind a fixed-rate tick driver, and turns engine errors into a durable
//! fault state.  A stable byte snapshot of the whole state is provided, with
//! a proved round trip.

use vstd::prelude::*;

mod engine;
mod laws;
mod machine;
mod screen;
mod snapshot;
mod state;

pub use machine::AudioWrapper;
pub use machine::Chip8;
pub use machine::KeyWrapper;
pub use screen::PixelIter;
pub use state::Chip8Err;
pub use state::Chip8State;

verus! {

} // verus!
