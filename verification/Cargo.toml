[package]
name = "wit_bindgen_js"
version = "0.1.0"
edition = "2021"
publish = false

[dependencies]
anyhow = "*"
heck = "=0.5.0"
clap = { version = "=4.6.7", features = ["derive"] }
wit-bindgen-core = "=0.62.0"
wit-parser = "=0.261.0"
