[package]
name = "accounts"
version = "0.1.0"
edition = "2021"
publish = false

[dependencies]
rust_decimal = "*"
hashring = "*"
tokio = { version = "*", features = ["rt-multi-thread", "macros", "sync", "time"] }
flume = "*"
async-trait = "*"
tracing = "*"
tracing-subscriber = { version = "*", features = ["env-filter"] }
tracing-tree = "*"
argh = "*"
csv = "*"
serde = { version = "*", features = ["derive"] }
