[package]
name = "keymint"
version = "0.1.0"
edition = "2021"
publish = false

[dependencies]
rand = "*"
actix-web = "*"
actix-cors = "*"
actix-web-httpauth = "*"
redis = { version = "*", features = ["tokio-comp"] }
serde = { version = "*", features = ["derive"] }
serde_json = "*"
