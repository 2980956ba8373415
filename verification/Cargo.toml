[package]
name = "script_service"
version = "0.1.0"
edition = "2021"
publish = false

[dependencies]
tokio = { version = "*", features = ["full"] }
tokio-tungstenite = "*"
futures = "*"
flume = "*"
serde = { version = "*", features = ["derive"] }
serde_json = "*"
jsonwebtoken = "*"
reqwest = { version = "*", default-features = false, features = ["json"] }
base64 = "*"
dotenv = "*"
envy = "*"
env_logger = "*"
log = "*"
thiserror = "*"
deadpool-redis = "*"
