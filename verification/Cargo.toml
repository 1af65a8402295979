[package]
name = "smtp"
version = "0.1.0"
edition = "2021"
publish = false

[dependencies]
base64 = "*"
infer = "*"
mail-builder = "*"
rpassword = "*"
rustls = "*"
serde = "*"
serde_derive = "*"
toml = "*"
webpki-roots = "*"
