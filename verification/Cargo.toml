[package]
name = "leptos-use"
version = "0.1.0"
edition = "2021"
publish = false

[dependencies]
leptos = "0.6"
serde = "1"
serde_json = "1"
wasm-bindgen = "0.2"
wasm-bindgen-futures = "0.4"
web-sys = { version = "0.3", features = ["DisplayMediaStreamConstraints", "DomException", "Event", "EventTarget", "MediaDevices", "MediaStream", "Navigator", "Storage", "StorageEvent", "Window"] }
