[package]
name = "fin_esp"
version = "0.1.0"
edition = "2021"
publish = false

[dependencies]
serde_json = "1"
log = "0.4"
esp-idf-hal = "*"
esp-idf-svc = "*"
esp-idf-sys = "*"
