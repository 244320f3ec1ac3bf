[package]
name = "cockpit_maintenance"
version = "0.1.0"
edition = "2021"
publish = false

[dependencies]
dirs = "=5.0.1"
serde = { version = "=1.0.229", features = ["derive"] }
sysinfo = "=0.33.1"

[lints.rust]
unexpected_cfgs = { level = "warn", check-cfg = ["cfg(desktop_shell)"] }
