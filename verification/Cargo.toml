[package]
name = "pulse_sequencer"
version = "0.1.0"
edition = "2021"
publish = false

[dependencies]
anyhow = "1"
console_error_panic_hook = "0.1"
currawong = "*"
js-sys = "0.3"
log = "0.4"
rand = "0.8"
wasm-bindgen = "0.2"
wasm-logger = "0.2"
web-sys = { version = "0.3", features = ["CssStyleDeclaration", "Document", "Element", "EventTarget", "HtmlElement", "Node", "Window"] }
