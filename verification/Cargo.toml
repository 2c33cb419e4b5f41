[package]
name = "phiny"
version = "0.1.0"
edition = "2021"
publish = false

[dependencies]
anyhow = "*"
audiopus = "*"
clap = { version = "*", features = ["derive"] }
cpal = "*"
data-encoding = "*"
iroh = "*"
log = "*"
tokio = { version = "*", features = ["rt-multi-thread", "sync", "macros", "signal", "time"] }
