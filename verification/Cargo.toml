[package]
name = "orgtasks"
version = "0.1.0"
edition = "2021"
publish = false

[dependencies]
anyhow = "1"
chrono = "0.4"
rand = "0.9"
serde = { version = "1", features = ["derive"] }
thiserror = "2"
ulid = "1"
