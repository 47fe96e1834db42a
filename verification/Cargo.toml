[package]
name = "kachina"
version = "0.1.0"
edition = "2021"
publish = false

[dependencies]
url = "=2.5.8"
regex = "=1.13.1"
anyhow = "=1.0.104"
chksum-md5 = "=0.1.0"
sha2 = "=0.11.1"
chrono = { version = "*", default-features = false, features = ["alloc"] }
ignore = "*"
