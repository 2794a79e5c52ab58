[package]
name = "xlfm"
version = "0.1.0"
edition = "2021"
publish = false

[dependencies]
uuid = { version = "*", features = ["v4"] }
zip = { version = "*", default-features = false, features = ["deflate"] }
reqwest = { version = "*", default-features = false, features = ["blocking", "rustls-tls"] }
walkdir = "*"
directories = "*"
dirs = "*"
trash = "*"
notify = "*"
steamlocate = "*"
