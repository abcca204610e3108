[package]
name = "jvm_rust"
version = "0.1.0"
edition = "2021"
publish = false

[dependencies]
mutf8 = "*"
zip = { version = "*", default-features = false, features = ["deflate"] }
