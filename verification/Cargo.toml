[package]
name = "ftty"
version = "0.1.0"
edition = "2021"
publish = false

[dependencies]
base64 = "=0.22.1"
calloop = { version = "=0.14.5", features = ["signals"] }
calloop-wayland-source = "=0.4.1"
fontconfig = "=0.11.0"
freetype-rs = "=0.38.0"
libc = "=0.2.191"
nix = { version = "=0.31.3", features = ["fs", "ioctl", "mman", "poll", "process", "signal", "term"] }
png = "=0.18.1"
serde = { version = "=1.0.229", features = ["derive"] }
toml = "=1.1.8"
ttf-parser = "=0.25.1"
unicode-width = "=0.2.3"
wayland-client = "=0.31.15"
wayland-protocols = { version = "=0.32.13", features = ["client", "staging", "unstable"] }
xkbcommon = "=0.9.0"
