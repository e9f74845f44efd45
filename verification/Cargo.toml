[package]
name = "helix_traversal"
version = "0.1.0"
edition = "2021"
publish = false

[dependencies]
heed3 = "0.22"
serde = { version = "1", features = ["derive"] }
proc-macro2 = "1"
quote = "1"
syn = { version = "2", features = ["full"] }
