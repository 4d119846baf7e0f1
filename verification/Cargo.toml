[package]
name = "workgrid-studio"
version = "0.1.0"
edition = "2021"
publish = false

[dependencies]
mysql_async = { version = "=0.37.1", default-features = false, features = ["minimal-rust", "rustls-tls", "ring", "tls12"] }
serde = { version = "=1.0.229", features = ["derive"] }
