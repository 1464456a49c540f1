[package]
name = "peer_echo"
version = "0.1.0"
edition = "2021"
publish = false

[dependencies]
anyhow = "=1.0.104"
console_error_panic_hook = "0.1"
iroh = { version = "=1.4.1", default-features = false, features = ["tls-ring"] }
rand = "=0.10.3"
tokio = { version = "=1.54.1", features = ["macros", "rt-multi-thread"] }
tracing = "=0.1.44"
tracing-subscriber = "=0.3.23"
tracing-subscriber-wasm = "0.1"
wasm-bindgen = "=0.2.129"
wasm-bindgen-futures = "=0.4.79"
