[package]
name = "auth_core"
version = "0.1.0"
edition = "2021"
publish = false

[dependencies]
actix-cors = "0.7"
actix-rt = "2"
actix-web = "4"
argon2rs = "=0.2.5"
async-graphql = { version = "7", features = ["chrono", "dataloader"] }
async-graphql-actix-web = "7"
async-trait = "0.1"
chrono = "=0.4.45"
cuid = "=1.3.3"
dataloader = "0.18"
diesel = { version = "=1.4.8", features = ["mysql", "r2d2", "chrono"] }
diesel-derive-enum = { version = "=0.4.4", features = ["mysql"] }
dotenv = "=0.15.0"
env_logger = "0.11"
futures = "0.3"
jsonwebtoken = "=7.2.0"
lazy_static = "1"
listenfd = "1"
rand = "=0.7.3"
redis = "=0.15.1"
serde = { version = "1", features = ["derive"] }
serde_json = "=1.0.154"
tokio = { version = "1", features = ["time"] }
uuid = { version = "=0.8.2", features = ["v4"] }
validator = "=0.10.1"
