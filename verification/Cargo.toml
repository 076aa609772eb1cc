[package]
name = "nbody"
version = "0.1.0"
edition = "2021"
publish = false

[dependencies]
bevy = { version = "=0.6.1", default-features = false, features = ["render", "bevy_winit", "x11"] }
bevy_egui = { version = "=0.12.1", default-features = false }
bevy_prototype_lyon = "=0.4.0"
bevy-web-resizer = "=0.1.0"
darling = "=0.13.4"
derive_more = "=0.99.20"
rand = "=0.8.8"
wasm-bindgen = "=0.2.129"
