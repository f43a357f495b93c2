[package]
name = "glinscan"
version = "0.1.0"
edition = "2021"
publish = false

[dependencies]
anyhow = "*"
axum = "*"
chrono = { version = "*", features = ["serde"] }
dotenvy = "*"
serde = { version = "*", features = ["derive"] }
serde_json = "*"
sqlx = { version = "*", default-features = false, features = ["runtime-tokio", "postgres", "chrono", "json"] }
tokio = { version = "*", features = ["rt-multi-thread", "macros", "net", "time"] }
tower-http = { version = "*", features = ["cors"] }
tracing = "*"
tracing-subscriber = "*"
