[package]
name = "rgb_led"
version = "0.1.0"
edition = "2021"
publish = false

[dependencies]
critical-section = "1"
esp-bootloader-esp-idf = "*"
esp-hal = { version = "1", features = ["esp32c3", "unstable"] }
heapless = "0.9"
micromath = "2"
