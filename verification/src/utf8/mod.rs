//! UTF-8 validation and incremental decoding.
pub mod decoder;
pub mod dfa;
pub mod lossy;
