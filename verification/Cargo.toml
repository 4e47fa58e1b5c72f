[package]
name = "utterly"
version = "0.1.0"
edition = "2021"
publish = false

[dependencies]
arboard = { version = "=3.7.0", default-features = false }
base64 = "=0.22.1"
enigo = { version = "=0.2.1", default-features = false, features = ["x11rb"] }
global-hotkey = "=0.5.5"
gtk = "0.16"
raw-window-handle = "=0.6.2"
serde = { version = "=1.0.229", features = ["derive"] }
serde_json = "=1.0.154"
softbuffer = { version = "=0.4.8", default-features = false, features = ["x11", "x11-dlopen"] }
tray-icon = "0.4"
tungstenite = { version = "=0.24.0", features = ["rustls-tls-webpki-roots"] }
winit = { version = "=0.30.13", default-features = false, features = ["rwh_06", "x11"] }
