[package]
name = "smart_alarm_clock"
version = "0.1.0"
edition = "2021"
publish = false

[dependencies]
smart-leds = "*"
serde = { version = "1", features = ["derive"] }
serde_json = "1"
anyhow = "1"
log = "0.4"
embedded-svc = "*"
esp-idf-sys = "*"
esp-idf-hal = "*"
esp-idf-svc = "*"
ws2812-esp32-rmt-driver = "*"
