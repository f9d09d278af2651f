[package]
name = "sndlab"
version = "0.1.0"
edition = "2021"
publish = false

[dependencies]
anyhow = "1"
eframe = { version = "0.37", default-features = false, features = ["default_fonts", "glow", "x11"] }
egui = { version = "0.37", default-features = false, features = ["default_fonts"] }
egui_code_editor = "0.4"
kira = { version = "0.10", default-features = false, features = ["cpal"] }
rand = "0.8"
rand_pcg = "0.3"
rhai = "1"
ron = "0.12"
rustfft = "6"
serde = { version = "1", features = ["derive"] }
symphonia = { version = "0.5", features = ["mp3"] }
tracing = "0.1"
tracing-subscriber = { version = "0.3", features = ["env-filter"] }
