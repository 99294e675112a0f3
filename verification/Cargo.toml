[package]
name = "rchat"
version = "0.1.0"
edition = "2021"
publish = false

[dependencies]
aes-gcm = "0.10"
k256 = "0.13"
ecies = { version = "0.2", default-features = false, features = ["pure"] }
hex = "0.4"
rand = "0.8"
tokio = { version = "1", features = ["full"] }
clap = { version = "4", features = ["derive"] }
crossterm = "0.28"
ratatui = "0.29"
rpassword = "7"
zip = { version = "2", default-features = false, features = ["deflate"] }
