[package]
name = "nlsh"
version = "0.1.0"
edition = "2021"
publish = false

[dependencies]
anyhow = "1"
clap = { version = "4", features = ["derive"] }
libc = "0.2"
nix = { version = "=0.29.0", features = ["term", "fs"] }
serde_json = "1"
tempfile = "3"
ureq = { version = "2", default-features = false }
