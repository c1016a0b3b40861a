[package]
name = "nats_client"
version = "0.1.0"
edition = "2021"
publish = false

[dependencies]
async-mutex = "1"
blocking = "0.4"
futures = "0.3"
serde = "1"
serde_json = "1"
smol = "0.1"

[dev-dependencies]
nom = "5"
