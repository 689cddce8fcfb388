[package]
name = "jiji"
version = "0.1.0"
edition = "2021"
publish = false

[dependencies]
gtk = "0.14"
i3ipc = "0.10"
lazy_static = "1"
libpulse-binding = "2"
libpulse-glib-binding = "2"
once_cell = "1"
serde = { version = "1", features = ["derive"] }
serde_json = "1"
xdg = "2"
