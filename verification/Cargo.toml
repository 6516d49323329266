[package]
name = "cargo_mobile"
version = "0.1.0"
edition = "2021"
publish = false

[dependencies]
bossy = "=0.2.1"
heck = "=0.4.1"
serde = { version = "=1.0.229", features = ["derive"] }
thiserror = "=1.0.69"
structopt = "=0.3.26"
core-foundation = "=0.9.4"
