[package]
name = "cdda_map_editor"
version = "0.1.0"
edition = "2021"
publish = false

[dependencies]
anyhow = "1"
rand = "0.8"
image = { version = "0.24", default-features = false, features = ["png"] }
serde = { version = "1", features = ["derive"] }
serde_json = "1"
log = "0.4"
directories = "5"
color-print = "0.3"
lazy_static = "1"
chrono = "0.4"
