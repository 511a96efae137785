[package]
name = "binf"
version = "0.1.0"
edition = "2021"

[dependencies]
proc-macro2 = "=1.0.107"
proc-macro2-diagnostics = "=0.10.1"
quote = "=1.0.47"
syn = { version = "=2.0.119", features = ["full"] }
