[package]
name = "osm-tile-downloader"
version = "0.1.0"
edition = "2021"
publish = false

[dependencies]
anyhow = "1"
clap = { version = "4", features = ["cargo"] }
futures = "0.3"
indicatif = "0.17"
pretty-bytes = "0.2"
reqwest = "0.12"
strfmt = "0.1"
tokio = { version = "1", features = ["rt-multi-thread", "macros", "fs", "time", "io-util"] }
