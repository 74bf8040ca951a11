[package]
name = "callmetrics"
version = "0.1.0"
edition = "2021"
publish = false

[dependencies]
rand = "0.8"
axum = "*"
tokio = { version = "1", features = ["macros", "rt-multi-thread", "time", "net"] }
