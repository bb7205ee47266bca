[package]
name = "goober_ui"
version = "0.1.0"
edition = "2021"
publish = false

[dependencies]
taffy = "0.3"
crossterm = { version = "0.27", features = ["event-stream"] }
skia-safe = { version = "0.70", features = ["gl"] }
winit = "0.29"
glutin = "0.31"
glutin-winit = "0.4"
raw-window-handle = "0.5"
gl = "0.14"
tokio = { version = "1", features = ["rt"] }
