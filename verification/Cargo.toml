[package]
name = "apk_analyzer"
version = "0.1.0"
edition = "2021"
publish = false

[dependencies]
byteorder = "1"
zip = { version = "*", default-features = false, features = ["deflate"] }
rusty-axml = "*"
arsc = "*"
rayon = "1"
thiserror = "1"
