//! Rendering of RISC-V control-and-status register blocks into Rust accessor code.

pub mod ir;
pub mod hex;
pub mod emit;
pub mod paths;
pub mod order;
pub mod render;
pub mod laws;
