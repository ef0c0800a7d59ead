[package]
name = "slutils"
version = "0.1.0"
edition = "2021"
publish = false

[dependencies]
byteorder = "1"
clap = { version = "4", features = ["derive"] }
image = { version = "0.25", default-features = false }
