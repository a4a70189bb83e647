[package]
name = "guessing_game"
version = "0.1.0"
edition = "2021"
publish = false

[dependencies]
rand = "0.8"
leptos = { version = "0.6", features = ["csr"] }
web-sys = { version = "0.3", features = ["SubmitEvent"] }
console_error_panic_hook = "0.1"
