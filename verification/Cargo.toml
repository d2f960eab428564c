[package]
name = "oblivious_transfer"
version = "0.1.0"
edition = "2021"
publish = false

[dependencies]
p256 = "0.13"
sha2 = "0.10"
libaes = "*"
rand = "0.8"
local-ip-address = "*"
network-interface = "*"
tokio = { version = "1", features = ["net", "rt", "sync", "macros"] }
thiserror = "1"
