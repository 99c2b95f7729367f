[package]
name = "web_service"
version = "0.1.0"
edition = "2021"
publish = false

[dependencies]
warp = "0.3"
tokio = { version = "1", features = ["full"] }
sqlx = { version = "0.8", default-features = false, features = ["runtime-tokio", "postgres"] }
serde = { version = "1", features = ["derive"] }
serde_json = "1"
thiserror = "1"
tracing = "0.1"
tracing-subscriber = { version = "0.3", features = ["env-filter", "fmt"] }
dotenvy = "0.15"
once_cell = "1"
uuid = { version = "1", features = ["v4"] }
argon2 = "0.5"
sha2 = "0.10"
