[package]
name = "ae"
version = "0.1.0"
edition = "2021"
publish = false

[dependencies]
xsalsa20poly1305 = "*"
anchor-lang = "*"
