[package]
name = "chat_relay"
version = "0.1.0"
edition = "2021"
publish = false

[dependencies]
actix = "=0.13.5"
actix-session = { version = "=0.11.0", features = ["cookie-session"] }
actix-web = "=4.18.1"
actix-web-actors = "=4.3.1"
actix-web-static-files = "=4.1.1"
argon2 = { version = "=0.5.3", features = ["std"] }
dataurl = "=0.3.0"
dotenv = "=0.15.0"
env_logger = "=0.11.11"
local-ip-address = "=0.6.13"
log = "=0.4.34"
r2d2 = "=0.8.10"
r2d2_sqlite = "=0.35.0"
rusqlite = { version = "=0.40.2", features = ["fallible_uint"] }
serde = { version = "=1.0.229", features = ["derive"] }
serde_json = "=1.0.154"
