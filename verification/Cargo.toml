[package]
name = "fritz_log_parser"
version = "0.1.0"
edition = "2021"
publish = false

[dependencies]
anyhow = "1"
chrono = "0.4"
csv = "1"
dialoguer = "0.11"
dotenv = "0.15"
hex = "0.4"
log = "0.4"
parking_lot = "0.12"
pbkdf2 = "0.12"
quick-xml = { version = "0.31", features = ["serialize"] }
rand = "0.8"
reqwest = { version = "0.11", default-features = false, features = ["rustls-tls", "multipart"] }
roxmltree = "0.20"
serde = { version = "1", features = ["derive"] }
serde_json = "1"
sha2 = "0.10"
simplelog = "0.12"
sqlx = { version = "0.7", default-features = false, features = ["sqlite", "runtime-tokio", "migrate"] }
structopt = "0.3"
surge-ping = "0.8"
thiserror = "1"
tokio = { version = "1", features = ["rt", "macros", "time", "fs"] }
