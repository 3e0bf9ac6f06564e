[package]
name = "ontogen"
version = "0.1.0"
edition = "2021"
publish = false

[dependencies]
cruet = "*"
sha2 = "0.10"
syn = { version = "2", features = ["full", "extra-traits"] }
quote = "1"
serde = { version = "1", features = ["derive"] }
serde_json = "1"
