//! Terminal input: keys and the decoding of input sequences.
pub mod decode;
pub mod keys;
pub mod kitty;
pub mod base64;
pub mod osc;
pub mod ss3;
pub mod controls;
pub mod mouse;
pub mod csi_keys;
pub mod csi;
pub mod decoding;
