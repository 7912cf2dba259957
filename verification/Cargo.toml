[package]
name = "statusphere"
version = "0.1.0"
edition = "2021"
publish = false

[dependencies]
chrono = "0.4"
hex = "0.4"
hmac = "0.12"
rand = "0.8"
serde_json = "1"
sha2 = "0.10"
url = "2"
actix-session = { version = "*", features = ["cookie-session"] }
actix-web = "4"
anyhow = "1"
async-sqlite = "*"
async-trait = "0.1"
dotenv = "0.15"
env_logger = "*"
futures-util = "0.3"
log = "0.4"
reqwest = { version = "0.12", default-features = false, features = ["rustls-tls"] }
rocketman = "*"
serde = { version = "1", features = ["derive"] }
tokio = { version = "1", features = ["macros", "rt-multi-thread", "sync", "time"] }
