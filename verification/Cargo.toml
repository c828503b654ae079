[package]
name = "lc3_utp"
version = "0.1.0"
edition = "2021"
publish = false

[dependencies]
serde = { version = "=1.0.229", features = ["derive"] }
embedded-hal = { version = "=0.2.7", features = ["unproven"] }
nb = "=1.1.0"
serialport = { version = "=3.3.0", default-features = false }
