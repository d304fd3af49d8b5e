[package]
name = "recipe_grabber"
version = "0.1.0"
edition = "2021"
publish = false

[dependencies]
scraper = "*"
serde = { version = "1", features = ["derive"] }
serde_json = "1"
nom = "7"
anyhow = "1"
thiserror = "1"
wasm-bindgen = "0.2"
