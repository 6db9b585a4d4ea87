[package]
name = "glove_core"
version = "0.1.0"
edition = "2021"
publish = false

[dependencies]
ekv = "=1.0.0"
embassy-futures = "=0.1.2"
embassy-sync = "=0.6.2"
embassy-time = "=0.5.1"
embedded-hal = "=0.2.7"
embedded-storage-async = "=0.4.2"
heapless = "=0.8.0"
keyberon = "=0.1.1"
nrf-dfu-target = "=0.3.2"
postcard = { version = "=1.1.3", default-features = false, features = ["heapless"] }
rand = { version = "=0.8.8", default-features = false, features = ["small_rng"] }
serde = { version = "=1.0.229", default-features = false, features = ["derive"] }
