[package]
name = "rustos"
version = "0.1.0"
edition = "2021"
publish = false

[dependencies]
volatile = "=0.2.7"
pc-keyboard = "=0.7.0"
spin = "=0.9.9"
lazy_static = "=1.5.1"
x86_64 = { version = "0.15", default-features = false, features = ["instructions"] }
pic8259 = "0.11"
bootloader = "=0.9.35"
