[package]
name = "msu2_display"
version = "0.1.6"
edition = "2021"
publish = false

[dependencies]
qrcodegen = "1.8"
libc = "0.2"
serialport = { version = "4", default-features = false }
serde = { version = "1", features = ["derive"] }
thiserror = "2"
