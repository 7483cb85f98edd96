[package]
name = "rustchess"
version = "0.1.0"
edition = "2021"
publish = false

[dependencies]
shakmaty = "=0.30.1"
leptos = { version = "=0.8.23", features = ["csr"] }
wasm-bindgen = "=0.2.130"
wasm-bindgen-futures = "=0.4.80"
js-sys = "=0.3.107"
gloo-timers = { version = "=0.3.0", features = ["futures"] }
web-sys = { version = "=0.3.107", features = ["KeyboardEvent", "HtmlElement", "ScrollIntoViewOptions", "ScrollLogicalPosition", "ScrollBehavior", "Navigator", "Clipboard", "Window", "Element", "Document", "EventTarget"] }
