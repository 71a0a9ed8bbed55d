[package]
name = "pghom"
version = "0.1.0"
edition = "2021"
publish = false

[dependencies]
kzen-paillier = "=0.4.3"
curv-kzen = "=0.10.0"
ciborium = "=0.2.2"
serde = "*"
