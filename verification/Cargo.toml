[package]
name = "expend"
version = "0.1.0"
edition = "2021"
publish = false

[dependencies]
chrono = "*"
keyring = "*"
open = "*"
reqwest = { version = "*", default-features = false, features = ["blocking", "json"] }
serde_json = "*"
termion = "*"
username = "*"
