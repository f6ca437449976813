[package]
name = "baseline_core"
version = "0.1.0"
edition = "2021"
publish = false

[dependencies]
arboard = { version = "=3.7.0", default-features = false, features = ["image-data"] }
calamine = { version = "0.30", default-features = false }
chrono = { version = "=0.4.45", default-features = false, features = ["clock", "std"] }
egui = "=0.29.1"
egui_plot = { version = "=0.29.0", default-features = false }
image = { version = "=0.25.10", default-features = false, features = ["png"] }
rayon = "=1.12.0"
regex = { version = "=1.13.1", default-features = false, features = ["std"] }
rfd = { version = "=0.15.4", default-features = false, features = ["xdg-portal", "tokio"] }
rust_xlsxwriter = { version = "=0.79.4", default-features = false }
serde_json = { version = "=1.0.154", features = ["preserve_order"] }
