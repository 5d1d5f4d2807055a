[package]
name = "yummy_indexing"
version = "0.1.0"
edition = "2021"
publish = false

[dependencies]
anyhow = "1"
async-trait = "0.1"
chrono = "0.4"
chrono-tz = "*"
cron = "*"
dotenv = "0.15"
elasticsearch = { version = "8.5.0-alpha.1", default-features = false, features = ["rustls-tls"] }
flexi_logger = "*"
log = "0.4"
once_cell = "1"
rand = "0.8"
regex = "1"
sea-orm = { version = "1.1", default-features = false, features = ["sqlx-mysql", "runtime-tokio-rustls", "macros", "with-chrono", "with-rust_decimal"] }
serde = { version = "1", features = ["derive"] }
serde_json = "1"
tokio = { version = "1", features = ["full"] }
toml = "*"
url = "2"
