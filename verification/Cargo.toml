[package]
name = "stepcheck"
version = "0.1.0"
edition = "2021"
publish = false

[dependencies]
regex = "=1.13.1"
chashmap = "=2.2.2"
reqwest = { version = "=0.13.5", default-features = false, features = ["blocking", "form"] }
sys-info = "=0.9.1"
serde = { version = "=1.0.229", features = ["derive"] }
