[package]
name = "keypad_scan"
version = "0.1.0"
edition = "2021"
publish = false

[dependencies]
esp-hal = { version = "=1.0.0-rc.1", features = ["esp32c3", "unstable"] }
esp-println = { version = "0.16", features = ["esp32c3"] }
esp-bootloader-esp-idf = { version = "0.3", features = ["esp32c3"] }
