[package]
name = "lora_chat"
version = "0.1.0"
edition = "2021"
publish = false

[dependencies]
heapless = "0.8"
embassy-time = { version = "*", features = ["std"] }
embassy-sync = "*"
embassy-futures = "*"
embassy-executor = "*"
embedded-graphics = "*"
embedded-hal-bus = "*"
embedded-storage = "*"
log = "*"
lora-phy = "*"
ssd1306 = "*"
trouble-host = "*"
esp-hal = "*"
esp-alloc = "*"
esp-backtrace = "*"
esp-bootloader-esp-idf = "*"
esp-println = "*"
esp-radio = "*"
esp-rtos = "*"
esp-storage = "*"
