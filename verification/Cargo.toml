[package]
name = "micropython_src"
version = "0.1.0"
edition = "2021"
publish = false

[dependencies]
anyhow = "1"
bindgen = "*"
cc = "1"
handlebars = "*"
json5 = "0.4"
libc = "0.2"
regex = "1"
serde = { version = "1", features = ["derive"] }
