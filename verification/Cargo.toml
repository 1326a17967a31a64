[package]
name = "orion_sec"
version = "0.1.0"
edition = "2021"
publish = false

[dependencies]
derive_more = { version = "=2.1.1", features = ["from"] }
indexmap = "=2.14.2"
log = "=0.4.34"
orion_conf = { version = "=0.7.2", features = ["yaml"] }
orion-error = { version = "=0.8.3", features = ["serde"] }
orion-variate = "=0.13.1"
serde = "=1.0.229"
serde_derive = "=1.0.229"
thiserror = "=2.0.21"
unicase = "=2.10.0"
