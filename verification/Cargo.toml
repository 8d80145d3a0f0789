[package]
name = "imessage-rs"
version = "0.1.0"
edition = "2021"
publish = false

[dependencies]
anyhow = "=1.0.104"
clap = { version = "=4.6.7", features = ["derive"] }
serde = { version = "=1.0.229", features = ["derive"] }
serde_json = { version = "=1.0.154", features = ["preserve_order"] }
serde_yaml = "=0.9.34"
home = "=0.5.12"
plist = "=1.10.3"
phonenumber = "=0.3.10"
base64 = "0.22"
emojis = "*"
mime_guess = "2"
