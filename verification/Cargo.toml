[package]
name = "cargo_hold"
version = "0.1.0"
edition = "2021"
publish = false

[dependencies]
anyhow = "1"
axum = { version = "0.7", features = ["multipart"] }
bytes = "1"
chrono = "0.4"
diesel = { version = "2", features = ["postgres", "r2d2", "chrono"] }
diesel_migrations = "2"
dotenv = "0.15"
rand = "0.8"
reqwest = { version = "0.12", default-features = false }
serde = { version = "1", features = ["derive"] }
thiserror = "1"
tokio = { version = "1", features = ["full"] }
tower-http = { version = "0.5", features = ["cors"] }
tracing = "0.1"
tracing-subscriber = { version = "0.3", features = ["env-filter"] }
