//! An interpreter for the CHIP-8 virtual machine.

pub mod decode;
pub mod draw;
pub mod exec;
pub mod font;
pub mod laws;
pub mod ops;
mod random;
pub mod state;
