[package]
name = "edit_core"
version = "0.1.0"
edition = "2021"
publish = false

[dependencies]
unicode-segmentation = "=1.13.3"
crossterm = { version = "0.21.0", features = ["serde"] }
grid_ui = { version = "=0.1.1", features = ["crossterm"] }
cli-clipboard = "=0.4.0"
serde = { version = "=1.0.229", features = ["derive"] }
serde_json = "=1.0.154"
