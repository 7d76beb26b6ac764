[package]
name = "crystallography"
version = "0.1.0"
edition = "2021"
publish = false

[dependencies]
anyhow = "1"
nalgebra = "0.32"
pest = "2"
pest_derive = "2"
thiserror = "1"
wasm-bindgen = "0.2"
