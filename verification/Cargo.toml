[package]
name = "copypaster"
version = "0.1.0"
edition = "2021"
publish = false

[dependencies]
serde = { version = "=1.0.229", features = ["derive"] }
serde_json = "=1.0.154"
base64 = "=0.22.1"
image = { version = "=0.25.10", default-features = false, features = ["png"] }
arboard = "=3.7.0"
dirs = "=5.0.1"
enigo = "=0.2.1"
cocoa = "0.26"
objc = "0.2"
core-foundation = "0.10"
core-graphics = "0.24"
windows = { version = "0.58", features = ["Win32_Foundation", "Win32_System_DataExchange"] }
