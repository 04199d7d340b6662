[package]
name = "entropic_void"
version = "0.1.0"
edition = "2021"
publish = false

[dependencies]
color-eyre = "0.6"
crossterm = "0.28"
num-complex = "0.4"
rand = { version = "0.9", features = ["small_rng"] }
rayon = "1"
ratatui = "0.29"
