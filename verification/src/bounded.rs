//! Bounded channels based on fixed-sized circular buffers.
pub mod spsc;
