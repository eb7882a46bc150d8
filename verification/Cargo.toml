[package]
name = "sht20_node"
version = "0.1.0"
edition = "2021"
publish = false

[dependencies]
urlencoding = "2"
anyhow = "1"
log = "0.4"
esp-idf-sys = "*"
esp-idf-hal = "*"
esp-idf-svc = "*"
