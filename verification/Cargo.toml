[package]
name = "professor"
version = "0.1.0"
edition = "2021"
publish = false

[dependencies]
serenity = { version = "0.12", features = ["collector"] }
tokio = { version = "1", features = ["macros", "rt", "rt-multi-thread", "time", "sync"] }
reqwest = { version = "0.11", default-features = false, features = ["rustls-tls"] }
chrono = "0.4"
dotenv = "0.15"
serde_json = "1"

[dev-dependencies]
regex = "1"
