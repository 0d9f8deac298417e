[package]
name = "everythingkb_core"
version = "0.1.0"
edition = "2021"
publish = false

[dependencies]
anyhow = "1"
base64 = "*"
clap = { version = "4", features = ["derive"] }
gray_matter = "*"
infer = "*"
jwalk = "*"
kamadak-exif = "*"
mdkit = "*"
notify = "*"
notify-debouncer-full = "*"
ollama-rs = "*"
pdfium-render = "*"
regex = "1"
reqwest = { version = "*", default-features = false, features = ["blocking", "json", "rustls-tls"] }
rusqlite = { version = "*", features = ["bundled"] }
serde = { version = "1", features = ["derive"] }
serde_json = "1"
sha2 = "*"
tokio = { version = "1", features = ["rt-multi-thread"] }
toml = "*"
undocx = "*"
walkdir = "2"
