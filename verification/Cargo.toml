[package]
name = "farc"
version = "0.1.0"
edition = "2021"
publish = false

[dependencies]
nom = "5"
thiserror = "1"
flate2 = "1"
aes_frast = "*"
