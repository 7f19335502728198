[package]
name = "ecash_probe"
version = "0.1.0"
edition = "2021"
publish = false

[dependencies]
cdk = "=0.6.1"
anyhow = "1"
tokio = { version = "1", features = ["rt-multi-thread", "macros", "time"] }
