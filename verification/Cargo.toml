[package]
name = "netwatch"
version = "0.1.0"
edition = "2021"
publish = false

[dependencies]
argh = "0.1"
bytes = "1"
flate2 = "1"
futures = "0.3"
http-body-util = "0.1"
hyper = { version = "1", features = ["full"] }
hyper-util = { version = "0.1", features = ["tokio"] }
mime_guess = "2"
pnet = "0.35"
serde = { version = "1", features = ["derive"] }
serde_json = "1"
tokio = { version = "1", features = ["full"] }
tokio-rustls = "0.24"
tokio-tungstenite = "0.21"
