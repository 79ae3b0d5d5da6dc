[package]
name = "recol_interactive"
version = "0.1.0"
edition = "2021"
publish = false

[dependencies]
crossterm = "0.29"
fastrand = "2"
