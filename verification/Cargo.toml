[package]
name = "arc_slice"
version = "0.1.0"
edition = "2021"
publish = false

[dependencies]
either = "1"
bytes = "1"
serde = "1"
bstr = "1"
