[package]
name = "augur"
version = "0.1.0"
edition = "2021"
publish = false

[dependencies]
regex = "1"
uuid = { version = "1", features = ["v4"] }
twilight-model = "*"
twilight-gateway = "*"
twilight-http = "*"
twilight-cache-inmemory = "*"
twilight-embed-builder = "*"
tokio = { version = "1", features = ["rt-multi-thread", "macros", "time"] }
sqlx = { version = "0.8", features = ["sqlite", "runtime-tokio"] }
reqwest = { version = "0.12", default-features = false, features = ["rustls-tls"] }
chrono = "0.4"
dotenv = "0.15"
