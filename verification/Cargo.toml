[package]
name = "asciiflow"
version = "0.1.0"
edition = "2021"
publish = false

[dependencies]
font8x8 = "0.3"
thiserror = "2"
anyhow = "1"
clap = { version = "4", features = ["derive"] }
crossbeam-channel = "0.5"
ctrlc = "3"
tracing-subscriber = { version = "0.3", features = ["env-filter"] }
freetype-rs = "*"
libc = "0.2"
