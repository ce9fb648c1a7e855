[package]
name = "mocksmith"
version = "0.1.0"
edition = "2021"
publish = false

[dependencies]
regex = "=1.13.1"
pathdiff = "=0.2.3"
clang = { version = "=2.1.0", features = ["runtime", "clang_10_0"] }
clap = { version = "=4.6.7", features = ["derive"] }
anyhow = "=1.0.104"
dunce = "=1.0.5"
capitalize = "=0.3.4"
