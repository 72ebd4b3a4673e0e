[package]
name = "debot_db"
version = "0.1.0"
edition = "2021"
publish = false

[dependencies]
debot-utils = "=1.0.34"
mongodb = { version = "=2.8.2", default-features = false, features = ["async-std-runtime"] }
shared_mongodb = "*"
bson = "2"
tokio = { version = "*", features = ["sync"] }
serde = { version = "*", features = ["derive"] }
futures = "*"
async-trait = "*"
rust_decimal = "*"
log = "*"

[dev-dependencies]
bincode = "1"
