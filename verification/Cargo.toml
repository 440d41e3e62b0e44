[package]
name = "nakacli"
version = "0.1.0"
edition = "2021"
publish = false

[dependencies]
ansi_term = "0.12"
chrono = "0.4"
clap = "2"
futures = "0.1"
hyper = "0.12"
hyper-tls = "0.3"
serde = { version = "1", features = ["derive"] }
serde_json = "1"
tokio-core = "0.1"
uuid = { version = "1", features = ["v4"] }
