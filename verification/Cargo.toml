[package]
name = "trackhelm"
version = "0.1.0"
edition = "2021"
publish = false

[dependencies]
crossbeam-channel = "0.5"
hound = "3.5"
lofty = "0.22"
log = "0.4"
rosc = "0.10"
rubato = "0.15"
serde = { version = "1", features = ["derive"] }
serde_json = "1"
symphonia = "0.5"
