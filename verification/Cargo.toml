[package]
name = "steel_capture"
version = "0.1.0"
edition = "2021"
publish = false

[dependencies]
byteorder = "*"
sha1_smol = "*"
crossbeam-channel = "*"
log = "*"
env_logger = "*"
clap = { version = "*", features = ["derive"] }
serde = { version = "*", features = ["derive"] }
serde_json = "*"
hound = "*"
rosc = "*"
serialport = { version = "*", default-features = false }
cpal = "*"
