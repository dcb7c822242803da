[package]
name = "dgs"
version = "0.1.0"
edition = "2021"
publish = false

[dependencies]
serde = { version = "1", features = ["derive"] }
resvg = "*"
proc-macro2 = "1"
quote = "1"
syn = { version = "2", features = ["full"] }
