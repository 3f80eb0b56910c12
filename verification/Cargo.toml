[package]
name = "osiris"
version = "0.1.0"
edition = "2021"
publish = false

[dependencies]
anyhow = "=1.0.104"
binance = "=0.21.3"
camino = "=1.2.6"
clap = { version = "=4.6.7", features = ["derive", "env"] }
directories = "=5.0.1"
futures = "=0.3.34"
parking_lot = "=0.12.5"
rand = "=0.8.8"
tokio = { version = "=1.54.1", features = ["full"] }
tonic = { version = "=0.14.9", features = ["tls-ring"] }
tracing = "=0.1.44"
tracing-subscriber = "=0.3.23"
url = "=2.5.8"
