[package]
name = "binreader"
version = "0.1.0"
edition = "2021"
publish = false

[dependencies]
bytes = "1"
memmap2 = "0.9"
fs3 = "0.5"
thiserror = "1"
proc-macro2 = "1"
quote = "1"
syn = { version = "1", features = ["full"] }
