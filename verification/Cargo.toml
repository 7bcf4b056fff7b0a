[package]
name = "loanchain"
version = "0.1.0"
edition = "2021"
publish = false

[dependencies]
elliptic-curve = "=0.13.8"
indexmap = "=2.14.2"
k256 = { version = "=0.13.4", features = ["pem", "serde"] }
serde_json = "=1.0.154"
sha2 = "=0.10.9"
text_io = "=0.1.13"
