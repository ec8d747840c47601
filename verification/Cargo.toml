[package]
name = "ethtransaction"
version = "0.1.0"
edition = "2021"
publish = false

[dependencies]
docopt = "=1.1.1"
serde = { version = "=1.0.229", features = ["derive"] }

[dev-dependencies]
primitive-types = { version = "*", default-features = false }
rlp = { version = "*", default-features = false }
rustc-serialize = "=0.3.25"
