[package]
name = "character_lcd"
version = "0.1.0"
edition = "2021"
publish = false

[dependencies]
cortex-m = "=0.6.7"
cortex-m-rt = "=0.6.15"
embedded-hal = "=0.2.7"
rtt-target = "=0.6.2"
stm32f1xx-hal = { version = "=0.7.0", features = ["stm32f103", "rt", "medium"] }
