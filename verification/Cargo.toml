[package]
name = "ripalt"
version = "0.1.0"
edition = "2021"
publish = false

[dependencies]
serde_bencode = "=0.2.4"
ring = "=0.17.14"
url = "=1.7.2"
data-encoding = "=2.11.1"
uuid = { version = "=1.29.0", features = ["v4"] }
chrono = "=0.4.45"
argon2rs = "=0.2.5"
rand = "=0.10.3"
fast_chemail = "=0.9.6"
markdown = "*"
