[package]
name = "kaku_ai"
version = "0.1.0"
edition = "2021"
publish = false

[dependencies]
anyhow = "1"
log = "0.4"
reqwest = { version = "0.12", default-features = false, features = ["blocking", "json", "charset", "rustls-tls"] }
serde_json = "1"
shlex = "1"
toml = "0.8"
