[package]
name = "cooklang_bindings"
version = "0.1.0"
edition = "2021"
publish = false

[dependencies]
cooklang = "*"
thiserror = "*"
uniffi = { version = "*", default-features = false }
