[package]
name = "cabi_rustgen"
version = "0.1.0"
edition = "2021"
publish = false

[dependencies]
heck = "*"
anyhow = "*"
proc-macro2 = "*"
syn = { version = "*", features = ["full"] }
clap = { version = "*", features = ["derive"] }
wit-parser = "*"
wit-component = "*"
wasm-metadata = "*"
