[package]
name = "sharess"
version = "0.1.0"
edition = "2021"
publish = false

[dependencies]
uuid = { version = "1", features = ["v4"] }
glob = "0.3"
serde = { version = "1", features = ["derive"] }
serde_json = "1"
dotenv = "0.15"
local-ip-address = "0.5"
portpicker = "0.1"
warp = "0.3"
reqwest = "0.11"
async-std = "1"
