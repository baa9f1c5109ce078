[package]
name = "cavetracker"
version = "0.1.0"
edition = "2021"
publish = false

[dependencies]
cpal = "0.15"
crossbeam = "0.8"
egui = { version = "0.30", default-features = false, features = ["default_fonts"] }
parking_lot = "0.12"
