[package]
name = "webworm"
version = "0.1.0"
edition = "2021"
publish = false

[dependencies]
glob = "0.3"
uuid = { version = "1", features = ["v4"] }
serde = { version = "1", features = ["derive"] }
serde_json = "1"
ron = "0.8"
clap = { version = "4", features = ["derive"] }
log = "0.4"
simplelog = "0.12"
webpage = "*"
directories-next = "2"
