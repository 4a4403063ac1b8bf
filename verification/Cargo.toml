[package]
name = "gpui_bounded"
version = "0.1.0"
edition = "2021"
publish = false

[dependencies]
image = { version = "0.25", default-features = false, features = ["png", "gif", "webp"] }
futures = "0.3"
anyhow = "1"
etagere = "0.2"
parking_lot = "0.12"
smallvec = "1"
uuid = "1"
