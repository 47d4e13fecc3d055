[package]
name = "bitaxe-raw-bonanza"
version = "0.1.0"
edition = "2021"
publish = false

[dependencies]
heapless = "0.8"
defmt = "*"
embassy-executor = "*"
embassy-futures = "*"
embassy-sync = "*"
embassy-time = "*"
embassy-usb = "*"
embedded-io-async = "*"
esp-hal = "*"
