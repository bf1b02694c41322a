[package]
name = "naive_datetime"
version = "0.1.0"
edition = "2021"
publish = false

[dependencies]
num = { version = "0.1", default-features = false }
time = "0.1"
serde = "1"
rustc-serialize = "0.3"

[dev-dependencies]
serde_json = "1"
