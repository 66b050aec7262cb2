//! Driver logic for the two programmable I/O (PIO) blocks of the RP2040.

pub mod bits;
pub mod common;
pub mod futures;
pub mod instance;
pub mod interrupts;
pub mod laws;
pub mod memmap;
pub mod pin;
pub mod platform;
pub mod regs;
mod sealed;
pub mod simulated;
pub mod sm;
