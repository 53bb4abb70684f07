[package]
name = "processador_imagens"
version = "0.1.0"
edition = "2021"
publish = false

[dependencies]
image = { version = "0.25", default-features = false, features = ["png"] }
rand = "0.8"
rustfft = "6"
zip = { version = "2", default-features = false, features = ["deflate"] }
