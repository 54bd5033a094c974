[package]
name = "pulse_orbit"
version = "1.0.0"
edition = "2021"
publish = false

[dependencies]
sysinfo = { version = "=0.33.1", default-features = false, features = ["system", "disk", "network"] }
rusqlite = { version = "=0.31.0", features = ["bundled"] }
r2d2 = "=0.8.10"
r2d2_sqlite = "=0.24.0"
chrono = "=0.4.45"
nix = { version = "=0.27.1", features = ["signal", "process"] }
serde = { version = "=1.0.229", features = ["derive"] }
libc = "=0.2.191"
core-foundation = "=0.10.1"
core-foundation-sys = "=0.8.7"
