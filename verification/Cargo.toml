[package]
name = "token_mill_v2_sdk"
version = "0.1.0"
edition = "2021"
publish = false

[dependencies]
ruint = "*"
