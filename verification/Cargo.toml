[package]
name = "chatcore"
version = "0.1.0"
edition = "2021"
publish = false

[dependencies]
aws-lc-rs = "*"
cidr = "*"
config = "*"
hex = "*"
os_info = "*"
ppp = "*"
rustls = "*"
serde = { version = "*", features = ["derive"] }
tokio = { version = "*", features = ["full"] }
tokio-rustls = "*"
tracing-appender = "*"
tracing-subscriber = "*"
