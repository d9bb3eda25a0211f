[package]
name = "text_macro"
version = "0.1.0"
edition = "2021"
publish = false

[dependencies]
serde = { version = "1", features = ["derive"] }
serde_json = "1"
uuid = { version = "1", features = ["v4"] }
arboard = "3"
enigo = "*"
objc2 = "*"
core-graphics = "*"
