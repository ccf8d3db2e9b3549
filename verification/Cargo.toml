[package]
name = "media_sync"
version = "0.1.0"
edition = "2021"
publish = false

[dependencies]
sha2 = "*"
regex = "*"
select = "*"
scraper = "*"
axum = "*"
tokio = { version = "*", features = ["rt-multi-thread", "macros", "net", "fs"] }
reqwest = { version = "*", default-features = false }
rusqlite = { version = "*", features = ["bundled"] }
futures = "*"
chrono = "*"
dotenvy = "*"
env_logger = "*"
log = "*"
serde = { version = "*", features = ["derive"] }
tower-http = { version = "*", features = ["fs"] }
