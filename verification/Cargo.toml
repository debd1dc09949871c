[package]
name = "lobby_sync"
version = "0.1.0"
edition = "2021"
publish = false

[dependencies]
anyhow = "*"
dotenvy = "*"
futures-util = "*"
serde = { version = "*", features = ["derive"] }
serde_json = "*"
sqlx = { version = "*", default-features = false, features = ["runtime-tokio", "postgres", "json"] }
tokio = { version = "*", features = ["sync", "rt-multi-thread", "macros", "net"] }
tokio-tungstenite = "*"
url = "*"
