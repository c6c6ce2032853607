[package]
name = "xlsx_converter"
version = "0.1.0"
edition = "2021"
publish = false

[dependencies]
umya-spreadsheet = "2"
serde = { version = "1", features = ["derive"] }
serde_json = "1"
serde-wasm-bindgen = "0.6"
wasm-bindgen = "0.2"
wasm-bindgen-futures = "0.4"
web-sys = { version = "0.3", features = ["Blob", "BlobPropertyBag", "Document", "Element", "HtmlElement", "Node", "Url", "Window"] }
console_error_panic_hook = "0.1"
