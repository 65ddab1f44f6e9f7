[package]
name = "relay_core"
version = "0.1.0"
edition = "2021"
publish = false

[dependencies]
anyhow = "*"
dht-sensor = "*"
embedded-hal = "*"
esp-idf-hal = "*"
esp-idf-svc = "*"
log = "*"

[dev-dependencies]
serde_json = "1"
