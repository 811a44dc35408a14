[package]
name = "irma_chat"
version = "0.1.0"
edition = "2021"
publish = false

[dependencies]
bytes = "=1.12.1"
chrono = "=0.4.45"
dotenv = "=0.15.0"
env_logger = "=0.8.4"
futures-channel = "=0.3.34"
futures-core = "=0.3.34"
futures-util = { version = "=0.3.34", features = ["sink"] }
jsonwebtoken = "=7.2.0"
log = "=0.4.34"
reqwest = { version = "=0.11.27", features = ["json", "stream"] }
serde = { version = "=1.0.229", features = ["derive"] }
serde_json = { version = "=1.0.154", features = ["raw_value"] }
tokio = { version = "=1.54.1", features = ["full"] }
tokio-tungstenite = "=0.14.0"

[dev-dependencies]
openssl = "=0.10.81"
