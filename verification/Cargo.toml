[package]
name = "signed"
version = "0.1.0"
edition = "2021"
publish = false

[dependencies]
maths-rs = "*"
rayon = "1"
serde = { version = "1", features = ["derive"] }
serde_json = "1"
uuid = { version = "1", features = ["v4", "serde"] }
