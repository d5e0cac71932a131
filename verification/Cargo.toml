[package]
name = "miwear_stack"
version = "0.1.0"
edition = "2021"
publish = false

[dependencies]
crc = "*"
md-5 = "*"
hmac = "*"
sha2 = "*"
nanorand = "*"
