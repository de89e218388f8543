[package]
name = "yewdux"
version = "0.1.0"
edition = "2021"
publish = false

[dependencies]
slab = "=0.4.12"
serde = { version = "=1.0.229", features = ["derive", "rc"] }
serde_json = "=1.0.154"
log = "=0.4.35"
thiserror = "=1.0.69"
async-trait = "=0.1.92"
futures = "=0.3.34"
wasm-bindgen = "=0.2.130"
web-sys = { version = "=0.3.107", features = ["Storage", "Window", "Event", "EventTarget", "HtmlInputElement", "HtmlTextAreaElement"] }
yew = "=0.21.0"
yew-agent = "=0.3.0"
gloo-utils = { version = "=0.2.0", features = ["serde"] }
indexed_db_futures = "=0.4.2"
