[package]
name = "hypr_swap"
version = "0.1.0"
edition = "2021"
publish = false

[dependencies]
toml = "*"
serde = { version = "1", features = ["derive"] }
serde_json = "1"
calloop = "*"
calloop-wayland-source = "*"
smithay-client-toolkit = "*"
wayland-client = "*"
wayland-scanner = "*"
cairo-rs = { version = "*", features = ["png"] }
pango = "*"
pangocairo = "*"
resvg = "*"
