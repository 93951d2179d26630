[package]
name = "watchcat"
version = "0.1.0"
edition = "2021"
publish = false

[dependencies]
crossbeam-channel = "0.5"
magnus = "0.6"
notify = { version = "6.1", features = ["crossbeam-channel"] }
rb-sys = "0.9"
