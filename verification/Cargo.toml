[package]
name = "blockchain"
version = "0.1.0"
edition = "2021"
publish = false

[dependencies]
aes = "=0.8.4"
cfb8 = "=0.8.1"
embassy-executor = "0.7"
embassy-net = { version = "0.7", features = ["dhcpv4", "medium-ethernet", "proto-ipv4", "tcp", "udp"] }
embassy-sync = "0.7"
embassy-time = "0.4"
embedded-storage = "0.3"
esp-alloc = "0.8"
esp-backtrace = { version = "0.17", features = ["esp32c6"] }
esp-bootloader-esp-idf = { version = "0.2", features = ["esp32c6"] }
esp-hal = { version = "=1.0.0-rc.0", features = ["esp32c6", "unstable"] }
esp-hal-embassy = { version = "0.9", features = ["esp32c6"] }
esp-println = { version = "0.15", features = ["esp32c6"] }
esp-storage = { version = "0.7", features = ["esp32c6"] }
esp-wifi = { version = "0.15", features = ["esp32c6", "wifi"] }
log = "=0.4.34"
rsa = { version = "=0.9.10", default-features = false }
static_cell = "2"
