[package]
name = "wayruler"
version = "0.1.0"
edition = "2021"
publish = false

[dependencies]
anyhow = "1"
glib = "0.19"
gtk4 = "0.8"
gtk4-layer-shell = "0.3"
image = { version = "0.24", default-features = false, features = ["png"] }
tokio = { version = "1.36", features = ["rt-multi-thread"] }
