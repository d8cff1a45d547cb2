[package]
name = "combat_core"
version = "0.1.0"
edition = "2021"
publish = false

[dependencies]
legion = { version = "0.3", default-features = false }
rand = { version = "0.7", features = ["small_rng"] }
rand_distr = "0.3"
vek = "0.12"
wasm-bindgen = "0.2"
js-sys = "0.3"
web-sys = { version = "0.3", features = ["CanvasRenderingContext2d", "HtmlImageElement"] }
