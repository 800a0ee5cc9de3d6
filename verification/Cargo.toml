[package]
name = "syncrodb"
version = "0.1.0"
edition = "2021"
publish = false

[dependencies]
uuid = { version = "1", features = ["v4"] }
ring = "0.17"
serde = { version = "1", features = ["derive"] }
serde_json = "1"
sqlx = { version = "0.8", default-features = false, features = ["runtime-tokio", "sqlite", "postgres", "mysql", "any"] }
tokio = { version = "1", features = ["full"] }
chrono = "0.4"
dirs = "5"
async-trait = "0.1"
thiserror = "1"
