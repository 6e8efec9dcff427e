[package]
name = "busy"
version = "0.1.0"
edition = "2021"
publish = false

[dependencies]
busylib = "*"
clap = { version = "4", features = ["derive", "env"] }
etcetera = "*"
http = "1"
image = { version = "0.25", default-features = false, features = ["png", "jpeg", "gif"] }
jiff = "0.2"
minijinja = { version = "2", features = ["loader"] }
serde = { version = "1", features = ["derive"] }
serde_json = "1"
thiserror = "2"
tokio = { version = "1", features = ["rt-multi-thread", "macros"] }
toml = "*"
