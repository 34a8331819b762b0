[package]
name = "arpeggio"
version = "0.1.0"
edition = "2021"
publish = false

[dependencies]
dioxus = { version = "0.3", default-features = false, features = ["macro", "hooks", "html"] }
dirs = "4.0.0"
serde = { version = "1", features = ["derive"] }
serde_json = "1"
window-vibrancy = "0.3.2"
