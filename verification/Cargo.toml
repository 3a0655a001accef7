[package]
name = "type_gen"
version = "0.1.0"
edition = "2021"
publish = false

[dependencies]
indexmap = { version = "2", features = ["std"] }
schemars = "0.8"
serde_json = "1"
