[package]
name = "wgsl_ln"
version = "0.1.0"
edition = "2021"
publish = false

[dependencies]
naga = { version = "*", features = ["wgsl-in"] }
proc-macro2 = "1"
quote = "1"
syn = { version = "2", features = ["full"] }
proc-macro-error = "1"
