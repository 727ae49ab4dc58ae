[package]
name = "oxc_core"
version = "0.1.0"
edition = "2021"
publish = false

[dependencies]
convert_case = "0.8"
itertools = "0.14"
proc-macro2 = "1"
quote = "1"
serde_json = "1"
syn = { version = "2", features = ["full"] }
