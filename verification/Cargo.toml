[package]
name = "lyricrail"
version = "0.1.3"
edition = "2021"
publish = false

[dependencies]
base64 = "0.22"
win-gsmtc = "*"
reqwest = { version = "0.12", default-features = false, features = ["json", "rustls-tls"] }
serde = { version = "1", features = ["derive"] }
serde_json = "1"
tokio = { version = "1", features = ["time"] }
tracing = "0.1"
windows-sys = { version = "*", features = ["Win32_Foundation", "Win32_UI_Input_KeyboardAndMouse", "Win32_UI_Shell", "Win32_UI_WindowsAndMessaging"] }
