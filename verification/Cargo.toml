[package]
name = "bai"
version = "0.1.0"
edition = "2021"
publish = false

[dependencies]
anyhow = "1"
chrono = "=0.4.45"
colored = "3"
etcetera = "0.11"
reqwest = "=0.12.28"
serde = { version = "1", features = ["derive"] }
tokio = { version = "1", features = ["macros", "rt-multi-thread"] }
toml = "0.8"
toml_edit = "=0.22.27"

[dev-dependencies]
regex = "=1.13.1"
