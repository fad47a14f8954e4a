[package]
name = "new_iris_terminal"
version = "0.1.0"
edition = "2021"
publish = false

[dependencies]
anyhow = "1"
chrono = "0.4"
crossbeam-channel = "0.5"
egui = { version = "0.29", default-features = false }
image = { version = "0.25", default-features = false, features = ["png"] }
keyring = { version = "3", default-features = false }
log = "0.4"
portable-pty = "0.9"
quick-xml = "0.36"
serde = { version = "1", features = ["derive"] }
serde_json = "1"
toml = "0.8"
ureq = { version = "2", features = ["json"] }
vte = "0.13"
wasmtime = { version = "36", default-features = false, features = ["cranelift", "runtime"] }
