[package]
name = "ks-ui"
version = "0.1.0"
edition = "2021"
publish = false

[dependencies]
chrono = "=0.4.45"
base64 = "=0.22.1"
urlencoding = "=2.1.3"
regex = "=1.13.1"
serde_json = "=1.0.154"
k8s-openapi = { version = "=0.24.0", features = ["v1_30"] }
pulldown-cmark = { version = "0.12", default-features = false, features = ["html"] }
