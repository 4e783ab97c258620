[package]
name = "message_order"
version = "0.1.0"
edition = "2021"
publish = false

[dependencies]
deadpool-redis = "0.14"
dotenv = "0.15"
hyper = "0.14"
log = "0.4"
redis = { version = "0.23", features = ["aio", "tokio-comp"] }
sqlx = { version = "0.7", default-features = false, features = ["postgres", "runtime-tokio"] }
uuid = "1"
