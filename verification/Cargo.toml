[package]
name = "jlo"
version = "0.1.0"
edition = "2021"
publish = false

[dependencies]
semver_rs = "*"
sha2 = "*"
hex = "*"
serde_json = "*"
reqwest = { version = "*", default-features = false, features = ["blocking", "rustls-tls"] }
flate2 = "*"
tar = "*"
zip = { version = "*", default-features = false, features = ["deflate"] }
indicatif = "*"
tempfile = "*"
