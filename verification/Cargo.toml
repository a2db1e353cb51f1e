[package]
name = "ansi"
version = "0.1.0"
edition = "2021"
publish = false

[dependencies]
arrayvec = "*"
memchr = "*"
compact_str = "*"
derive_more = { version = "*", features = ["from_str", "display"] }
thiserror = "*"
