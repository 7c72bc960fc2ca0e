[package]
name = "sneturfahi"
version = "0.1.0"
edition = "2021"
publish = false

[dependencies]
bumpalo = "=3.20.3"
log = "=0.4.34"
thiserror = "=1.0.69"

[dev-dependencies]
nom = "7"
