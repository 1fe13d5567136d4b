[package]
name = "webapp_launcher"
version = "0.1.0"
edition = "2021"
publish = false

[dependencies]
dirs = "5"
serde = { version = "1", features = ["derive"] }
serde_json = "1"
sysinfo = "0.30"
reqwest = { version = "0.12", default-features = false, features = ["blocking", "json", "rustls-tls"] }
