[package]
name = "ratchet_meter"
version = "0.1.0"
edition = "2021"
publish = false

[dependencies]
chrono = { version = "0.4", default-features = false, features = ["std", "clock"] }
rand = "0.8"
tui = "0.19"
crossterm = "0.25"
