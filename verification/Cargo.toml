[package]
name = "edge_gateway"
version = "0.1.0"
edition = "2021"
publish = false

[dependencies]
json = "*"
rusqlite = { version = "*", features = ["bundled"] }
chrono = "*"
log = "*"
log4rs = "*"
clap = "2"
toml = "*"
serde = { version = "*", features = ["derive"] }
serde_derive = "*"
paho-mqtt = "*"
serialport = "*"
spidev = "*"
min-rs = "*"
