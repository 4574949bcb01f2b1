[package]
name = "identified_server"
version = "0.1.0"
edition = "2021"
publish = false

[dependencies]
ring = "0.16.20"
rand = "0.8"
tokio = { version = "1", features = ["sync", "rt-multi-thread", "macros", "time", "net"] }
tokio-stream = "0.1"
warp = "0.3"
futures = "0.3"
serde = { version = "1", features = ["derive"] }
serde_json = "1"
chrono = { version = "0.4", default-features = false, features = ["clock"] }
