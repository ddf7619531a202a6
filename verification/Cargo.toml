[package]
name = "post_dl"
version = "0.1.0"
edition = "2021"
publish = false

[dependencies]
eframe = { version = "=0.25.0", default-features = false, features = ["default_fonts", "glow", "x11"] }
egui-toast = "=0.11.0"
reqwest = { version = "=0.11.27", features = ["json"] }
serde = { version = "=1.0.229", features = ["derive"] }
serde_json = "=1.0.154"
tokio = { version = "=1.54.1", features = ["rt-multi-thread", "macros", "fs", "io-util"] }
trash = "=1.3.0"
