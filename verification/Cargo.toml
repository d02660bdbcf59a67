[package]
name = "snypr"
version = "0.1.0"
edition = "2021"
publish = false

[dependencies]
anyhow = "=1.0.104"
async-trait = "=0.1.92"
gdk4 = "=0.9.6"
glib = "=0.20.12"
gtk4 = { version = "=0.9.7", features = ["v4_14"] }
gtk4-layer-shell = "=0.5.0"
image = { version = "=0.25.10", default-features = false, features = ["png"] }
ksni = "=0.3.7"
serde = { version = "=1.0.229", features = ["derive"] }
serde_json = "=1.0.154"
smithay-client-toolkit = { version = "=0.19.2", default-features = false }
tokio = { version = "=1.54.1", features = ["io-util", "macros", "net", "rt", "rt-multi-thread", "sync", "time"] }
tracing = "=0.1.44"
wayland-client = "=0.31.15"
wayland-protocols-wlr = { version = "=0.3.12", features = ["client"] }
