[package]
name = "veoluz"
version = "0.1.0"
edition = "2021"
publish = false

[dependencies]
base64 = "=0.13.1"
miniz_oxide = "=0.4.4"
bincode = "=1.3.3"
serde = { version = "=1.0.229", features = ["derive"] }
serde_json = "=1.0.154"
clap = "=2.34.0"
image = "=0.21.3"
colorsys = "=0.7.3"
rand = "=0.6.5"
num-traits = "=0.2.19"
nalgebra = "0.30"
ncollide2d = "0.33"
wasm-bindgen = { version = "=0.2.130", features = ["serde-serialize"] }
js-sys = "=0.3.107"
web-sys = { version = "=0.3.107", features = ["console", "Window", "Document", "Element", "HtmlElement", "HtmlCanvasElement", "HtmlButtonElement", "HtmlInputElement", "CanvasRenderingContext2d", "ImageData", "MouseEvent", "KeyboardEvent", "MessageEvent", "Worker", "DedicatedWorkerGlobalScope", "CssStyleDeclaration", "DomRect", "Event", "EventTarget"] }
lazy_static = "=1.5.1"
console_error_panic_hook = "=0.1.7"
