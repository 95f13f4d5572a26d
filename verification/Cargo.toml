[package]
name = "navi_engine"
version = "0.1.0"
edition = "2021"
publish = false

[dependencies]
serde_json = "1"
zip = { version = "2", default-features = false, features = ["deflate"] }
mlua = { version = "0.9", features = ["lua54", "vendored", "send"] }
poise = "0.6"
serenity = "0.12"
tokio = { version = "1", features = ["full"] }
reqwest = { version = "0.12", default-features = false, features = ["json", "rustls-tls"] }
rusqlite = { version = "0.32", features = ["bundled"] }
crossterm = "0.28"
ratatui = "0.29"
dotenvy = "0.15"
self-replace = "1"
