[package]
name = "spatiotemporal-agent"
version = "0.3.0"
edition = "2021"
publish = false

[dependencies]
serde = { version = "1", features = ["derive"] }
serde_json = "1"
serde_yaml_ng = "0.10"
ureq = "2"
tiny_http = "0.12"
notify = "6"
