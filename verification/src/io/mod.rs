//! Buffers, and transfers that take more than one operation.

pub mod buf;
pub mod splice;
pub mod transfer;
