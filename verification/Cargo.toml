[package]
name = "sidewinder-wheel"
version = "0.1.0"
edition = "2021"
publish = false

[dependencies]
anyhow = "1"
clap = { version = "4", features = ["derive"] }
env_logger = "0.11"
hidapi = { version = "2", default-features = false, features = ["linux-native-basic-udev"] }
libc = "0.2"
log = "0.4"
