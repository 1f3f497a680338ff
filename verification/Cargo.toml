[package]
name = "boulder_upstream"
version = "0.1.0"
edition = "2021"
publish = false

[dependencies]
fs-err = { version = "3", features = ["tokio"] }
futures-util = "0.3"
git2 = { version = "0.20", default-features = false }
hex = "0.4"
nix = { version = "0.27", features = ["fs"] }
sha2 = "*"
thiserror = "2"
tokio = { version = "1", features = ["fs", "io-util", "process", "rt"] }
url = "2"
