[package]
name = "hintsx"
version = "0.1.0"
edition = "2021"
publish = false

[dependencies]
anyhow = "=1.0.104"
atspi = "=0.30.0"
bincode = "=1.3.3"
env_logger = "=0.11.11"
evdev = "=0.13.2"
futures = "=0.3.34"
gdk4 = "=0.11.5"
gdk4-x11 = "=0.11.5"
gtk4 = "=0.11.5"
gtk4-layer-shell = "=0.8.1"
log = "=0.4.34"
opencv = "=0.101.1"
regex = "=1.13.1"
serde = { version = "=1.0.229", features = ["derive"] }
serde_json = "=1.0.154"
tempfile = "=3.27.0"
tokio = { version = "=1.54.1", features = ["rt-multi-thread"] }
zbus = "=5.19.0"
