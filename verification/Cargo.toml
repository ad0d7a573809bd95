[package]
name = "terrarium"
version = "0.1.0"
edition = "2021"
publish = false

[dependencies]
rand = "*"
flate2 = "*"
arc-swap = "*"
tokio = { version = "*", features = ["full"] }
tokio-util = { version = "*", features = ["codec"] }
bytes = "*"
futures = "*"
serde = { version = "*", features = ["derive"] }
serde_yaml = "*"
