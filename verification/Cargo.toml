[package]
name = "hablog"
version = "0.1.0"
edition = "2021"
publish = false

[dependencies]
tokio = { version = "*", features = ["full"] }
libc = "*"
reqwest = { version = "*", default-features = false, features = ["json"] }
serde_json = "*"
termcolor = "*"
