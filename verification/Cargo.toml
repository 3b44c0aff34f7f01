[package]
name = "transit_presence"
version = "0.1.0"
edition = "2021"
publish = false

[dependencies]
anyhow = "=1.0.104"
embedded-graphics = "=0.8.2"
embedded-graphics-simulator = "=0.8.0"
geoutils = "=0.5.1"
home-assistant-rest = "=0.2.0"
log = "=0.4.34"
parking_lot = "=0.13.0"
rpi-led-panel = "=0.9.1"
septa-api = "=0.4.0"
serde = { version = "=1.0.229", features = ["derive"] }
serde_yaml = "=0.9.34"
strum = "0.26"
tokio = { version = "=1.54.1", features = ["rt-multi-thread", "macros", "time"] }
