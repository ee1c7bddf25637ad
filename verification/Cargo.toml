[package]
name = "card_less_reader"
version = "0.1.0"
edition = "2021"
publish = false

[dependencies]
hidapi = "*"
