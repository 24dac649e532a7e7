[package]
name = "kaseta_control"
version = "0.1.0"
edition = "2021"
publish = false

[dependencies]
heapless = "0.7"
crc = "3"
libm = "0.2"
micromath = "2"
