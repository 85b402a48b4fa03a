[package]
name = "enum_ext"
version = "0.1.0"
edition = "2021"
publish = false

[dependencies]
proc-macro2 = "*"
quote = "*"
rand = "*"
syn = { version = "*", features = ["full"] }
