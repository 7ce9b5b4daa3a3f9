[package]
name = "clash_lib"
version = "0.1.0"
edition = "2021"
publish = false

[dependencies]
async-trait = "0.1"
chrono = { version = "0.4", default-features = false, features = ["clock", "std"] }
futures = "0.3"
hyper = { version = "0.14", features = ["client", "http1"] }
serde = { version = "1", features = ["derive"] }
tokio = { version = "1", features = ["sync", "rt", "io-util"] }
tracing = "0.1"
uuid = { version = "1", features = ["v4"] }
