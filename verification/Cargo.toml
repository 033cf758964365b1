[package]
name = "production_schedule"
version = "0.1.0"
edition = "2021"
publish = false

[dependencies]
chrono = { version = "0.4", features = ["serde"] }
uuid = { version = "1", features = ["v4"] }
serde = { version = "1", features = ["derive"] }
serde_json = "1"
yew = { version = "0.20", features = ["csr"] }
yew-router = "0.17"
gloo = "0.8"
gloo-net = "*"
wasm-bindgen = "0.2"
wasm-bindgen-futures = "0.4"
web-sys = { version = "0.3", features = ["HtmlInputElement", "HtmlTextAreaElement", "InputEvent"] }
serde-wasm-bindgen = "*"
warp = "0.3"
tokio = { version = "1", features = ["full"] }
reqwest = { version = "0.11", default-features = false, features = ["json", "rustls-tls"] }
rocksdb = { version = "*", default-features = false }
dotenv = "*"
