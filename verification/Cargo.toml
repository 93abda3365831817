[package]
name = "earnscore"
version = "0.1.0"
edition = "2021"
publish = false

[dependencies]
serde_json = "1"
md5 = "0.7"
sha2 = "0.10"
imagesize = "0.13"
serde = { version = "1", features = ["derive"] }
rusqlite = { version = "0.32", features = ["bundled"] }
chrono = "0.4"
uuid = { version = "1", features = ["v4", "v7"] }
rand = "0.8"
reqwest = { version = "0.12", default-features = false, features = ["json", "rustls-tls"] }
tokio = { version = "1", features = ["full"] }
tokio-tungstenite = "0.24"
futures-util = "0.3"
clap = { version = "4", features = ["derive"] }
