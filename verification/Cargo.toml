[package]
name = "lightyear"
version = "0.1.0"
edition = "2021"
publish = false

[dependencies]
serde = { version = "1", features = ["derive"] }
bitcode = "0.6"
governor = "0.6"
nonzero_ext = "0.3"
tracing = "0.1"
