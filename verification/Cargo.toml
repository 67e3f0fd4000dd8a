[package]
name = "genesis_agent"
version = "0.1.0"
edition = "2021"
publish = false

[dependencies]
sha2 = "0.10"
aes-gcm = "0.10"
aes = "0.8"
cbc = "0.1"
cipher = "0.4"
rustls = "0.21"
rustls-pemfile = "1"
chrono = "0.4"
serde = { version = "1", features = ["derive"] }
serde_json = "1"
hostname = "0.4"
dirs = "5"
anyhow = "1"
lazy_static = "1"
tokio = { version = "1", features = ["full"] }
futures = "0.3"
async-nats = "0.33"
tracing = "0.1"
tracing-subscriber = "0.3"
reqwest = { version = "0.11", default-features = false, features = ["rustls-tls"] }
diesel = { version = "2", features = ["sqlite"] }
diesel_migrations = "2"
