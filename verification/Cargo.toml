[package]
name = "rustle"
version = "0.1.0"
edition = "2021"
publish = false

[dependencies]
chrono = "0.4"
serde = { version = "1", features = ["derive"] }
serde_json = "1"
axum = "0.7"
tokio = { version = "1", features = ["rt-multi-thread", "macros", "net", "time"] }
sqlx = { version = "0.7", default-features = false, features = ["sqlite", "runtime-tokio"] }
tower-http = { version = "0.5", features = ["compression-gzip", "cors", "fs"] }
tower_governor = "0.4"
tracing = "0.1"
tracing-subscriber = "0.3"
dotenvy = "0.15"
wasm-bindgen = "0.2"
wasm-bindgen-futures = "0.4"
serde-wasm-bindgen = "0.6"
js-sys = "0.3"
web-sys = { version = "0.3", features = ["Window", "Storage", "Request", "RequestInit", "Response", "Headers", "Navigator", "Clipboard", "Document", "Element", "KeyboardEvent"] }
leptos = { version = "0.6", features = ["csr"] }
console_error_panic_hook = "0.1"
