[package]
name = "pwsh_core"
version = "0.1.0"
edition = "2021"
publish = false

[dependencies]
rustc_apfloat = "*"
encoding_rs = "*"
encoding_rs_io = "*"
