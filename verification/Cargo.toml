[package]
name = "indicators_core"
version = "0.1.0"
edition = "2021"
publish = false

[dependencies]
async-trait = "*"
axum = "*"
chrono = "*"
clickhouse = "*"
serde = { version = "*", features = ["derive"] }
sqlx = { version = "*", features = ["runtime-tokio", "postgres", "chrono"] }
tokio = { version = "*", features = ["full"] }
tracing = "*"
tracing-subscriber = { version = "*", features = ["env-filter", "json"] }
