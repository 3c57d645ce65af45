[package]
name = "appchain_anchor"
version = "0.1.0"
edition = "2021"
publish = false

[dependencies]
hex = "0.4.3"
borsh = { version = "0.9", features = ["std"] }
parity-scale-codec = { version = "3", features = ["derive"] }
serde = { version = "1", features = ["derive"] }
serde_json = "1"
