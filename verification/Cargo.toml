[package]
name = "vasak_terminal"
version = "0.1.0"
edition = "2021"
publish = false

[dependencies]
shell-words = "=1.1.1"
serde = { version = "1", features = ["derive"] }
serde_json = "1"
tokio = { version = "1", features = ["net", "io-util", "time", "sync"] }
portable-pty = "0.9"
tauri = { version = "2", default-features = false, features = ["wry"] }
gtk = "0.18"
