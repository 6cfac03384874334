[package]
name = "anime_ingest"
version = "0.1.0"
edition = "2021"
publish = false

[dependencies]
rand = "*"
scraper = "*"
serde = { version = "*", features = ["derive"] }
serde_json = "*"
reqwest = { version = "*", default-features = false, features = ["json"] }
tokio = { version = "*", features = ["rt-multi-thread", "macros", "time"] }
dotenvy = "*"
diesel = { version = "*", features = ["postgres"] }
