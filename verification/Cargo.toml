[package]
name = "opensrdk-symbolic-computation"
version = "0.1.0"
edition = "2021"
publish = false

[dependencies]
opensrdk-linear-algebra = "*"
serde = { version = "1", features = ["derive"] }
