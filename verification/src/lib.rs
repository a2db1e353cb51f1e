//! ANSI escape-code primitives: SGR attributes, colors, C0 controls, a
//! DEC/ECMA-48 byte-level parser and an incremental UTF-8 decoder.
pub mod attribute;
pub mod color;
pub mod control;
pub mod escape;
pub mod events;
pub mod input;
pub mod params;
pub mod parser;
pub mod parser2;
pub mod utf8;
