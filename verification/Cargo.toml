[package]
name = "lowertier"
version = "0.1.0"
edition = "2021"
publish = false

[dependencies]
anyhow = "1"
arc-swap = "1"
async-trait = "0.1"
cidr = "0.3"
dashmap = "6"
hmac = "0.12"
parking_lot = "0.12"
prefix-trie = { version = "*", features = ["cidr"] }
quanta = "0.12"
rand = "0.8"
sha2 = "0.10"
smallvec = "1"
snow = "0.10"
thiserror = "1"
tokio = { version = "1", features = ["sync", "time", "rt", "macros"] }
tracing = "0.1"
url = "2"
uuid = { version = "1", features = ["v4"] }
