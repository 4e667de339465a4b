[package]
name = "sqlx_migrate"
version = "0.1.0"
edition = "2021"
publish = false

[dependencies]
anyhow = "1"
chrono = { version = "0.4", default-features = false, features = ["clock"] }
console = "0.15"
futures-core = "0.3"
