[package]
name = "spoilers"
version = "0.1.0"
edition = "2021"
publish = false

[dependencies]
redis = "=1.7.1"
postgres = "=0.19.14"
serde_json = "=1.0.151"
rusoto_core = { version = "=0.48.0", default-features = false, features = ["rustls"] }
rusoto_s3 = { version = "=0.48.0", default-features = false, features = ["rustls"] }
tokio = { version = "1", features = ["rt", "time"] }
