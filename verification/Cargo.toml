[package]
name = "music_library"
version = "0.1.0"
edition = "2021"
publish = false

[dependencies]
claxon = "=0.4.3"
id3 = "=1.17.2"
iced = { version = "0.8", default-features = false, features = ["glow"] }
