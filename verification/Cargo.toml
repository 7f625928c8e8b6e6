[package]
name = "catalogue"
version = "0.1.0"
edition = "2021"
publish = false

[dependencies]
actix-cors = "0.7"
actix-web = "4"
async-graphql = "7"
async-graphql-actix-web = "7"
base64 = "0.22"
bson = { version = "2", features = ["chrono-0_4"] }
chrono = "0.4"
dotenv = "0.15"
env_logger = "0.11"
fancy-regex = "0.14"
hmac = "0.12"
jwt = "0.16"
lazy_static = "1"
log = "0.4"
mongodb = "2"
reqwest = { version = "0.12", default-features = false, features = ["json", "rustls-tls"] }
serde = { version = "1", features = ["derive"] }
serde_json = "1"
serde_repr = "0.1"
sha2 = "0.10"
