[package]
name = "market_core"
version = "0.1.0"
edition = "2021"
publish = false

[dependencies]
jsonwebtoken = { version = "=11.1.0", default-features = false, features = ["rust_crypto"] }
bcrypt = "=0.19.3"
bson = "=3.1.0"
serde_json = "=1.0.151"
serde = { version = "=1.0.229", features = ["derive"] }
mongodb = { version = "=3.9.1", features = ["sync"] }
actix-web = "=4.15.0"
chrono = "=0.4.45"
