//! What holds of the driver as a whole, and of each call on its own.

pub mod apart;
pub mod fifos;
pub mod flags;
pub mod instructions;
pub mod numbers;
pub mod pads;
pub mod read_back;
pub mod settings;
pub mod shared;
pub mod steps;
pub mod waits;
pub mod wakeups;
pub mod words;
