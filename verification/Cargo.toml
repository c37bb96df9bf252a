[package]
name = "wikigraph"
version = "0.1.0"
edition = "2021"
publish = false

[dependencies]
anyhow = "=1.0.104"
bzip2 = "=0.6.1"
clap = { version = "=4.6.7", features = ["derive"] }
quick-xml = "=0.37.5"
tracing = "=0.1.44"
tracing-subscriber = "=0.3.23"
