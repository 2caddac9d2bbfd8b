[package]
name = "sec_authentication"
version = "0.1.0"
edition = "2021"
publish = false

[dependencies]
chrono = { version = "0.4", features = ["serde"] }
google-authenticator = "*"
read_input = "0.8"
regex = "1"
serde = { version = "1", features = ["derive"] }
serde_json = "1"
sodiumoxide = "0.2"
zxcvbn = "2"
