//! A virtual machine for the classic 8-bit CHIP-8 architecture.
//!
//! The crate holds the machine state and the engine that fetches, decodes and
//! executes one instruction at a time. Every executable function carries a
//! contract over the mathematical model in [`state`], and Verus proves the
//! body against it.

pub mod chip;
pub mod error;
pub mod font;
pub mod instruction;
pub mod keypad;
pub mod laws;
mod random;
pub mod render;
pub mod state;

pub use chip::Chip;
pub use error::ChipError;
pub use instruction::{decode, Instruction};
pub use render::CellRect;
pub use state::{HEIGHT, SCALE, WIDTH};
