[package]
name = "ralph-lib"
version = "0.1.0"
edition = "2021"
publish = false

[dependencies]
apache-avro = "0.17"
chrono = { version = "0.4", default-features = false, features = ["clock", "std", "serde"] }
clap = { version = "4", features = ["derive"] }
jsonschema = { version = "0.17", default-features = false }
regex-lite = "0.1"
serde = { version = "1", features = ["derive"] }
serde_json = "1"
thiserror = "1"
