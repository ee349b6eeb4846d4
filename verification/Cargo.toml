[package]
name = "jitsi_guest"
version = "0.1.0"
edition = "2021"
publish = false

[dependencies]
http = "1"
serde_urlencoded = "0.7"
serde = { version = "1", features = ["derive"] }
serde_json = "1"
reqwest = { version = "0.12", default-features = false, features = ["rustls-tls", "json"] }
tokio = { version = "1", features = ["macros", "rt-multi-thread", "time", "signal", "sync"] }
anyhow = "1"
tracing = "0.1"
structopt = "0.3"
