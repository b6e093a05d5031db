[package]
name = "vote_results"
version = "0.1.0"
edition = "2021"
publish = false

[dependencies]
rand = "=0.7.3"
serde_json = "=1.0.154"
serde = { version = "1", features = ["derive"] }
actix = "0.10"
actix-web = "3"
actix-web-actors = "3"
actix-files = "0.5"
actix-redis = "0.9"
redis-async = "0.6"
mongodb = { version = "1", default-features = false, features = ["sync"] }
redis = "0.17"
tokio = { version = "0.2", features = ["full"] }
futures = "0.3"
derive_more = "0.99"
dotenv = "0.15"
env_logger = "0.8"
