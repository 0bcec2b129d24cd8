[package]
name = "artifact_sync"
version = "0.1.0"
edition = "2021"
publish = false

[dependencies]
clap = { version = "2.34", default-features = false }
