[package]
name = "butterfly"
version = "0.1.0"
edition = "2021"
publish = false

[dependencies]
serde_json = "1"
heapless = "0.8"
log = "0.4"
esp-idf-svc = "0.51"
esp-idf-hal = "0.45"
vl53l0x = "*"
vl53l1x-uld = "*"
