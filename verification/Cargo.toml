[package]
name = "bcryptor"
version = "0.1.0"
edition = "2021"

[dependencies]
bcrypt = "*"
getrandom = "0.2"
kobold = "*"
wasm-bindgen = "0.2"
web-sys = { version = "0.3", features = ["Event", "HtmlInputElement", "KeyboardEvent"] }
