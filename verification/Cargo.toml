[package]
name = "cpp_build"
version = "0.1.0"
edition = "2021"
publish = false

[dependencies]
cc = "=1.6.0"
cpp_syn = { version = "=0.12.0", features = ["full", "visit"] }
cpp_synmap = "=0.3.0"
