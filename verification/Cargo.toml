[package]
name = "mg_settings"
version = "0.1.0"
edition = "2021"
publish = false

[dependencies]
quote = "0.5"
syn = { version = "0.13", features = ["extra-traits"] }
