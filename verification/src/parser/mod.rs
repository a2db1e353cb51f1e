//! The DEC/ECMA-48 byte-level parser.
pub mod accumulator;
pub mod action;
pub mod collectors;
pub mod conditions;
pub mod debug;
pub mod definition;
pub mod handler;
pub mod internals;
pub mod nested;
pub mod parameters_builder;
pub mod parser;
pub mod raw_parameters;
pub mod state;
pub mod strip_laws;
pub mod stripper;
pub mod table;
pub mod utf8_parser;
