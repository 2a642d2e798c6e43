[package]
name = "wtui"
version = "0.1.0"
edition = "2021"
publish = false

[dependencies]
dirs = "*"
iced = { version = "0.14", default-features = false, features = ["tokio", "tiny-skia", "x11"] }
iced-themer = "*"
rfd = { version = "*", default-features = false, features = ["xdg-portal", "tokio"] }
serde = { version = "1", features = ["derive"] }
serde_json = "1"
tokio = { version = "1", features = ["rt"] }
wait-timeout = "0.2"
