[package]
name = "skate"
version = "0.1.0"
edition = "2021"
publish = false

[dependencies]
cron = "=0.12.1"
semver = "=1.0.28"
shellexpand = "=3.1.2"
colored = "=2.2.0"
serde = { version = "=1.0.229", features = ["derive"] }
serde_yaml = "=0.9.34"
validator = "*"

[dev-dependencies]
k8s-openapi = { version = "=0.22.0", features = ["v1_30"] }
