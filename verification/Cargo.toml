[package]
name = "rust_audio"
version = "0.1.0"
edition = "2021"
publish = false

[dependencies]
prost = "0.14"
tempfile = "=3.27.0"
tokio = { version = "=1.54.1", features = ["macros", "rt-multi-thread"] }
tonic = "=0.14.6"
tonic-prost = "0.14"
zip = { version = "=2.6.1", default-features = false }
