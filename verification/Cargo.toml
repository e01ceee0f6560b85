[package]
name = "flowtrace"
version = "0.1.0"
edition = "2021"
publish = false

[dependencies]
syn = { version = "2", features = ["full"] }
quote = "1"
proc-macro2 = "1"
clap = { version = "4", features = ["derive"] }
colored = "2"
walkdir = "2"

[dev-dependencies]
serde_json = "1"
