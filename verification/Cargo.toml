[package]
name = "icesickle"
version = "0.1.0"
edition = "2021"
publish = false

[dependencies]
ed25519-dalek = "=2.2.0"
esp-alloc = { version = "=0.11.0", features = ["esp32s3"] }
esp-backtrace = { version = "=0.20.0", features = ["esp32s3", "panic-handler", "println"] }
esp-bootloader-esp-idf = { version = "=0.6.0", features = ["esp32s3"] }
esp-hal = { version = "=1.2.2", features = ["esp32s3", "unstable"] }
esp-println = { version = "=0.18.0", features = ["esp32s3"] }
