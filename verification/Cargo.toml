[package]
name = "ki_client_gui"
version = "0.1.0"
edition = "2021"
publish = false

[dependencies]
anyhow = "1"
chacha20poly1305 = "=0.10.1"
chrono = { version = "=0.4.45", default-features = false, features = ["alloc", "clock", "std"] }
eframe = { version = "=0.32.3", default-features = false, features = ["default_fonts", "glow", "persistence", "x11"] }
serde = { version = "1", features = ["derive"] }
serde_json = "=1.0.154"
tracing = "0.1"
ureq = { version = "=2.12.1", default-features = false, features = ["json", "tls"] }
