[package]
name = "line_clamp"
version = "0.1.0"
edition = "2021"
publish = false

[dependencies]
gloo = { version = "*", default-features = false, features = ["utils"] }
js-sys = "*"
wasm-bindgen = "*"
web-sys = { version = "*", features = ["Document", "Element", "HtmlElement", "Node", "Window"] }
