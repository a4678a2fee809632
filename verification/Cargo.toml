[package]
name = "transaction"
version = "0.1.0"
edition = "2021"
publish = false

[dependencies]
astro-format = "=0.4.0"
ed25519-dalek = "=1.0.1"
fides = "=2.2.1"
opis = "=3.1.0"
