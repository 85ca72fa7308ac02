[package]
name = "trade_report"
version = "0.1.0"
edition = "2021"
publish = false

[dependencies]
anyhow = "*"
chrono = "*"
chrono-tz = "*"
dotenvy = "*"
futures = "*"
rust_decimal = "*"
serde = { version = "*", features = ["derive"] }
sqlx = { version = "*", default-features = false, features = ["postgres", "runtime-tokio", "chrono", "rust_decimal", "derive"] }
strum = "*"
strum_macros = "*"
tokio = { version = "*", features = ["rt-multi-thread", "macros", "sync"] }
