[package]
name = "mondashboard"
version = "0.1.0"
edition = "2021"
publish = false

[dependencies]
png = "0.18"
sysinfo = "0.33"
nvml-wrapper = "0.10"
zbus = "5"
tokio = { version = "1", features = ["rt", "time"] }
serde = { version = "1", features = ["derive"] }
serde_json = "1"
log = "0.4"
env_logger = "0.11"
gtk4 = "0.9"
glib = "0.20"
libadwaita = { version = "0.7", features = ["v1_6"] }
ksni = { version = "0.3", features = ["blocking"] }
