[package]
name = "plc_control"
version = "0.1.0"
edition = "2021"
publish = false

[dependencies]
crc = "=3.4.0"
eframe = { version = "=0.22.0", default-features = false, features = ["default_fonts", "glow"] }
serialport = { version = "=4.10.1", default-features = false }
thiserror = "=1.0.69"
