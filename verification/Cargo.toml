[package]
name = "q3a_muncher"
version = "0.1.0"
edition = "2021"
publish = false

[dependencies]
nom = "7"
num-traits = "0.2"
thiserror = "1"

[dev-dependencies]
heck = "0.4"
serde_json = "1"
