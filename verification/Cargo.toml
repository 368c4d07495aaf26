[package]
name = "bmp_editor"
version = "0.1.0"
edition = "2021"
publish = false

[dependencies]
bmp-rust = "*"
yew = { version = "*", features = ["csr"] }
wasm-bindgen = "*"
js-sys = "*"
gloo = "*"
gloo-console = "*"
gloo-events = "*"
gloo-utils = "*"
web-sys = { version = "*", features = [
    "Blob",
    "CanvasRenderingContext2d",
    "Document",
    "Element",
    "Event",
    "EventTarget",
    "File",
    "FileList",
    "HtmlCanvasElement",
    "HtmlElement",
    "HtmlInputElement",
    "HtmlLinkElement",
    "HtmlSelectElement",
    "KeyboardEvent",
    "MouseEvent",
    "Node",
    "Path2d",
    "Url",
    "Window",
] }
