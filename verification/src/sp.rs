//! Building blocks of the single-producer channels.
pub mod array;
