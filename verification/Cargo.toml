[package]
name = "wnfs_adapter"
version = "0.1.0"
edition = "2021"
publish = false

[dependencies]
anyhow = "1"
async-trait = "0.1"
console_error_panic_hook = "0.1"
console_log = "1"
futures-util = "0.3"
js-sys = "0.3"
libipld = { version = "0.12", default-features = false }
log = "0.4"
serde = { version = "1", features = ["derive"] }
serde-wasm-bindgen = "0.6"
wasm-bindgen = "0.2"
wasm-bindgen-futures = "0.4"
