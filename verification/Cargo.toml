[package]
name = "rsa_tunnel"
version = "0.1.0"
edition = "2021"
publish = false

[dependencies]
num-bigint = "0.4"
num-integer = "0.1"
num-traits = "0.2"
num-primes = "*"
rand = "0.8"
serde = { version = "1", features = ["derive"] }
serde_json = "1"
