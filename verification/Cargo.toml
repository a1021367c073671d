[package]
name = "teletypewriter_pipes"
version = "0.1.0"
edition = "2021"
publish = false

[dependencies]
mio = "0.6"
miow = "*"
parking_lot = "*"
windows-sys = { version = "*", features = ["Win32_Foundation", "Win32_System_IO"] }
