[package]
name = "cbor_playground"
version = "0.1.0"
edition = "2021"
publish = false

[dependencies]
cbor-diag = "=0.1.12"
wasm-bindgen = { version = "=0.2.129", features = ["serde-serialize"] }
iced_web = "=0.4.0"
dodrio = "=0.2.0"
bumpalo = { version = "=2.6.0", features = ["collections"] }
web-sys = { version = "=0.3.106", features = ["console", "Document", "DomTokenList", "Element", "Event", "EventTarget", "HtmlElement", "HtmlTextAreaElement", "KeyboardEvent", "Location", "Node", "Storage", "Window"] }
