[package]
name = "sonde"
version = "0.1.0"
edition = "2021"
publish = false

[dependencies]
sha2 = "=0.10.9"
log = "=0.4.35"
esp-idf-sys = "*"
esp-idf-hal = "*"
esp-idf-svc = "*"
esp32-nimble = "*"
