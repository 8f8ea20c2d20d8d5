[package]
name = "stack_ripper"
version = "0.1.0"
edition = "2021"
publish = false

[dependencies]
bme280 = { version = "=0.5.1", default-features = false, features = ["async"] }
defmt = "0.3"
embassy-embedded-hal = "0.2.0"
embassy-executor = { version = "0.6.3", features = ["task-arena-size-20480"] }
embassy-sync = "0.6.1"
embassy-time = "0.3.2"
embedded-io-async = "0.6.1"
esp-backtrace = { version = "0.14.2", features = ["esp32c3", "defmt", "exception-handler", "panic-handler"] }
esp-hal = { version = "0.22.0", features = ["esp32c3", "defmt"] }
esp-hal-embassy = { version = "0.5.0", features = ["esp32c3"] }
fugit = "0.3.7"
lora-phy = "=3.0.1"
micromath = "=2.1.0"
nmea0183 = "=0.6.0"
static_cell = "=2.1.1"

[dev-dependencies]
postcard = { version = "=1.1.3", default-features = false }
