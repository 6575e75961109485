[package]
name = "conduit"
version = "0.1.0"
edition = "2021"
publish = false

[dependencies]
soroban-sdk = "=21.7.7"
soroban-env-host = "=21.2.1"
