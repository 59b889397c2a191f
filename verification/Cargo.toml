[package]
name = "karabinux"
version = "0.1.0"
edition = "2021"
publish = false

[dependencies]
linked_hash_set = "*"
evdev-rs = "*"
libc = "*"
serde = { version = "1", features = ["derive"] }
serde_derive = "1"
serde_json = "1"
structopt = "*"
