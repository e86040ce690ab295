[package]
name = "labdessem"
version = "0.1.0"
edition = "2021"
publish = false

[dependencies]
csv = "=1.4.0"
good_lp = { version = "=1.15.3", default-features = false, features = ["microlp", "clarabel"] }
serde = { version = "=1.0.229", features = ["derive"] }
serde_json = "=1.0.154"
