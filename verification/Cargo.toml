[package]
name = "kotlinrs"
version = "0.1.0"
edition = "2021"
publish = false

[dependencies]
fusevm = { version = "=0.26.10", features = ["ffi"] }
libc = "=0.2.191"
lsp-server = "=0.10.0"
lsp-types = "=0.97.0"
serde = { version = "=1.0.229", features = ["derive"] }
serde_json = "=1.0.154"
