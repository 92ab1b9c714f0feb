[package]
name = "runtime_cfg"
version = "0.1.0"
edition = "2021"
publish = false

[dependencies]
syn = "1"
proc-macro2 = { version = "1", features = ["span-locations"] }
