[package]
name = "gigatype"
version = "0.1.0"
edition = "2021"
publish = false

[dependencies]
serde_json = "=1.0.154"
hound = "=3.5.1"
libc = "=0.2.191"
cpal = "=0.18.2"
enigo = "=0.6.1"
arboard = "=3.7.0"
wl-clipboard-rs = "=0.9.5"
ashpd = { version = "=0.13.13", features = ["global_shortcuts", "remote_desktop", "screencast"] }
futures-util = "=0.3.34"
tokio = { version = "=1.54.1", features = ["rt", "time"] }
global-hotkey = "=0.9.0"
rustfft = "=6.4.1"
sentencepiece-rust = "=0.1.1"
ort = { version = "=2.0.0-rc.15", default-features = false, features = ["std", "ndarray", "load-dynamic"] }
