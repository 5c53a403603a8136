[package]
name = "tm1638"
version = "0.1.0"
edition = "2021"
publish = false

[dependencies]
embassy-stm32 = { version = "=0.1.0", features = ["stm32f103c8", "time-driver-any"] }
embassy-time = "=0.3.2"
defmt-rtt = "=0.4.2"
panic-probe = "=0.3.2"
