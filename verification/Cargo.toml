[package]
name = "ai_voting_agent"
version = "0.1.0"
edition = "2021"
publish = false

[dependencies]
tokio = { version = "=1.53.2", features = ["rt-multi-thread", "macros", "time"] }
tokio-postgres = { version = "=0.7.18", features = ["with-serde_json-1", "with-chrono-0_4"] }
bb8 = "=0.8.6"
bb8-postgres = "=0.8.1"
reqwest = { version = "=0.12.28", default-features = false, features = ["json"] }
serde = { version = "=1.0.229", features = ["derive"] }
serde_json = "=1.0.151"
chrono = "=0.4.45"
log = "=0.4.34"
env_logger = "=0.11.11"
dotenv = "=0.15.0"
actix-web = "=4.15.0"
actix-cors = "=0.7.2"
rig-core = { version = "=0.43.0", features = ["reqwest"] }
