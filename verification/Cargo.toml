[package]
name = "oauth_primitives"
version = "0.1.0"
edition = "2021"
publish = false

[dependencies]
async-trait = "0.1"
oxide-auth = "*"
url = "2"
