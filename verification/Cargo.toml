[package]
name = "termpane"
version = "0.7.0"
edition = "2021"
publish = false

[dependencies]
vte = "=0.15.0"
unicode-width = "=0.2.2"
compact_str = "=0.10.0"
smallvec = "=1.16.4"

[dev-dependencies]
ratatui-core = "=0.1.2"
