[package]
name = "retgui"
version = "0.1.0"
edition = "2021"
publish = false

[dependencies]
slotmap = "1"
pulldown-cmark = { version = "0.13", default-features = false }
rustc-hash = "2"
smol_str = "0.3"
