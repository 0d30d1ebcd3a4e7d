[package]
name = "cursor-clip"
version = "0.1.0"
edition = "2021"
publish = false

[dependencies]
aes-gcm = "*"
base64 = "0.22"
sha2 = "*"
rand = "*"
keyring = "*"
stoolap = "*"
toml = "*"
serde = { version = "1", features = ["derive"] }
serde_json = "1"
log = "0.4"
libc = "0.2"
memmap2 = "0.9"
wayland-client = "0.31"
wayland-protocols = { version = "0.32", features = ["client", "staging", "unstable"] }
wayland-protocols-wlr = { version = "0.3", features = ["client"] }
wayland-protocols-misc = { version = "0.3", features = ["client"] }
cosmic-protocols = { version = "*", features = ["client"] }
gtk4 = "*"
gtk4-layer-shell = "*"
libadwaita = "*"
glib = "*"
