[package]
name = "dovi_demux"
version = "0.1.0"
edition = "2021"
publish = false

[dependencies]
hevc_parser = "*"
dolby_vision = "*"
anyhow = "*"
indicatif = "*"
