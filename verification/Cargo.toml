[package]
name = "bestbefore"
version = "0.1.0"
edition = "2021"

[dependencies]
chrono = { version = "0.4", default-features = false, features = ["clock", "std"] }
proc-macro2 = "1"
quote = "1"
syn = { version = "2", features = ["full"] }
