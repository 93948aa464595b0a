[package]
name = "twag"
version = "0.1.0"
edition = "2021"
publish = false

[dependencies]
url = "*"
serde = { version = "*", features = ["derive"] }
chrono = "*"
dotenvy = "*"
tokio = { version = "*", features = ["rt-multi-thread", "macros", "net"] }
axum = "*"
sqlx = { version = "*", default-features = false, features = ["postgres", "runtime-tokio", "chrono"] }
notion-client = "*"
