//! A second DEC parser whose transition table packs each entry in one byte.
pub mod transitions;
