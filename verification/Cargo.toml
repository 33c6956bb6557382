[package]
name = "kexsh"
version = "0.1.0"
edition = "2021"
publish = false

[dependencies]
crossterm = { version = "0.29", features = ["event-stream"] }
futures-lite = "2"
libc = "0.2"
nix = { version = "0.30", features = ["process", "signal", "user"] }
portable-pty = "0.9"
serde = { version = "1", features = ["derive"] }
serde_json = "1"
thiserror = "2"
tokio = { version = "1", features = ["full"] }
toml = "0.9"
uuid = { version = "1", features = ["v4"] }

[dev-dependencies]
base64 = "0.22"
