[package]
name = "ergot_demo"
version = "0.1.0"
edition = "2021"
publish = false

[dependencies]
console_log = "*"
embassy-futures = "*"
ergot = "*"
futures-channel = "*"
futures-core = "*"
futures-io = "*"
gloo-timers = { version = "*", features = ["futures"] }
js-sys = "*"
log = "*"
maitake-sync = "*"
mutex = "*"
rand = "*"
serde = { version = "*", features = ["derive"] }
tsify-next = "*"
wasm-bindgen = "*"
wasm-bindgen-futures = "*"
