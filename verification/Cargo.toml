[package]
name = "runc_shim"
version = "0.1.0"
edition = "2021"
publish = false

[dependencies]
serde = { version = "1", features = ["derive"] }
serde_json = "1"
path-absolutize = "3"
nix = { version = "*", features = ["fs", "user", "process", "signal", "term", "ioctl", "socket", "uio"] }
libc = "0.2"
oci-spec = "*"
tempfile = "3"
time = { version = "0.3", features = ["serde"] }
uuid = { version = "1", features = ["v4"] }
chrono = { version = "0.4", features = ["serde"] }
log = "0.4"
crossbeam = "0.8"
