[package]
name = "rustitles"
version = "2.4.0"
edition = "2021"
publish = false

[dependencies]
toml_edit = "=0.25.17"
serde = { version = "=1.0.229", features = ["derive"] }
serde_json = "=1.0.154"
jwalk = "=0.9.0"
tempfile = "=3.27.0"
chrono = "=0.4.45"
dirs = "=7.0.0"
xdg = "=3.0.0"
once_cell = "=1.21.4"
log = "=0.4.35"
reqwest = { version = "=0.12.28", default-features = false, features = ["blocking", "json", "rustls-tls"] }
eframe = { version = "=0.37.0", default-features = false, features = ["glow", "x11", "default_fonts"] }
egui_extras = { version = "=0.37.0", features = ["svg"] }
rfd = { version = "=0.17.2", default-features = false, features = ["xdg-portal"] }
image = { version = "=0.25.10", default-features = false, features = ["png", "ico"] }
