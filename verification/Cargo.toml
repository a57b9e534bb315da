[package]
name = "hydroponics"
version = "0.1.0"
edition = "2021"

[dependencies]
heapless = "=0.8.0"
cyw43 = "=0.3.0"
dotenv-proc = "=0.1.0"
embassy-embedded-hal = "=0.3.2"
embassy-executor = "=0.7.0"
embassy-net = { version = "=0.6.0", features = ["tcp", "proto-ipv4", "medium-ethernet"] }
embassy-sync = "=0.6.2"
embassy-time = "=0.4.0"
embassy-usb-logger = "=0.4.0"
embedded-hal-async = "=1.0.0"
embedded-io-async = "=0.6.1"
log = "0.4"
panic-reset = "=0.1.1"
rand_core = "=0.6.4"
serde = { version = "1", default-features = false, features = ["derive"] }
static_cell = "=2.1.1"
thiserror = { version = "=2.0.21", default-features = false }
