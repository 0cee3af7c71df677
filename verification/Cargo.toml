[package]
name = "parking_gate"
version = "0.1.0"
edition = "2021"
publish = false

[dependencies]
base64 = "=0.22.1"
chrono = "=0.4.45"
serde = { version = "=1.0.229", features = ["derive"] }
serde_json = "=1.0.154"
anyhow = "=1.0.104"
once_cell = "=1.21.4"
dotenvy = "=0.15.7"
tokio = { version = "=1.54.1", features = ["full"] }
tokio-util = { version = "=0.7.20", features = ["compat"] }
paho-mqtt = { version = "=0.14.0", default-features = false, features = ["ssl"] }
tiberius = "=0.12.3"
bb8 = "=0.9.1"
bb8-tiberius = "=0.16.0"
