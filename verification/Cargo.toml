[package]
name = "chat_model"
version = "0.1.0"
edition = "2021"
publish = false

[dependencies]
ahash = "0.8"
smol_str = "0.2"
iced_native = "0.4"
