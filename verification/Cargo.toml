[package]
name = "orbital"
version = "0.1.0"
edition = "2021"
publish = false

[dependencies]
orbclient = { version = "=0.4.6", default-features = false }
log = "=0.4.35"
serde = { version = "=1.0.229", features = ["derive"] }
serde_derive = "=1.0.229"
toml = "=1.1.8"
xxhash-rust = { version = "=0.8.19", features = ["const_xxh3", "xxh3"] }
redox_syscall = "=0.9.5"
libc = "=0.2.191"
thiserror = "=2.0.21"
libredox = "=0.1.25"
redox-scheme = "*"
redox-log = "*"
redox_event = "*"
drm = "*"
