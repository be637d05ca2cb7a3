[package]
name = "klvm-traits"
version = "0.1.0"
edition = "2021"
publish = false

[dependencies]
chik-bls = "=0.52.0"
num-bigint = "=0.4.8"
thiserror = "=2.0.21"

[dev-dependencies]
hex = "=0.4.3"
