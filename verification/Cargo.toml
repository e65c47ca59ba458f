[package]
name = "testdisk"
version = "0.1.0"
edition = "2021"
publish = false

[dependencies]
byteorder = "1"
crc32fast = "1"
serde = { version = "1", features = ["derive"] }
serde_json = "1"
plist = "1"
log = "0.4"
thiserror = "2"
