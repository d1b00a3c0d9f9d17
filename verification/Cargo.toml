[package]
name = "rxrust"
version = "1.0.0"
edition = "2021"
publish = false

[dependencies]
futures = "0.3"
futures-core = "0.3"
