[package]
name = "github_api"
version = "0.1.0"
edition = "2021"
publish = false

[dependencies]
camino = "=1.2.6"
chrono = "=0.4.45"
eyre = "=0.6.14"
futures = "=0.3.34"
github_v3 = "=1.1.0"
indexmap = "=2.14.2"
jiff = { version = "=0.2.43", features = ["serde"] }
serde = { version = "=1.0.229", features = ["derive"] }
serde_json = "=1.0.154"
tokio = { version = "=1.54.1", features = ["macros", "rt-multi-thread"] }
tracing = "=0.1.44"
