[package]
name = "safeness"
version = "0.1.0"
edition = "2021"
publish = false

[dependencies]
syn = { version = "=0.15.44", default-features = false, features = ["full", "parsing"] }
proc-macro2 = { version = "=0.4.30", default-features = false }
failure = { version = "=0.1.8", default-features = false, features = ["std"] }
