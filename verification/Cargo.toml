[package]
name = "wasm_futures_executor"
version = "0.1.0"
edition = "2021"
publish = false

[dependencies]
num = "0.4"
futures = "0.3"
futures-task = "0.3"
futures-timer = "3"
wasm-bindgen = "0.2"
wasm-bindgen-futures = "0.4"
js-sys = "0.3"
web-sys = { version = "0.3", features = ["DedicatedWorkerGlobalScope", "Worker", "WorkerOptions", "WorkerType"] }
parking_lot = "0.12"
tokio = { version = "1", default-features = false, features = ["sync"] }
log = "0.4"
console_log = "1"
console_error_panic_hook = "0.1"
instant = "0.1"
