//! Unbounded SPSC and SPMC channels based on dynamically growable and shrinkable circular
//! buffers.
pub mod spsc;
pub mod spmc;
