[package]
name = "ibc"
version = "0.1.0"
edition = "2021"
publish = false

[dependencies]
serde = { version = "=1.0.229", features = ["derive"] }
displaydoc = { version = "=0.2.7", default-features = false }
syn = "=2.0.119"

[dev-dependencies]
prost = "=0.13.5"
ibc-proto = { version = "=0.52.0", default-features = false, features = ["std"] }
