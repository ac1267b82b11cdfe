[package]
name = "agent_spy"
version = "0.1.0"
edition = "2021"
publish = false

[dependencies]
anyhow = "1"
arboard = { version = "3", default-features = false }
image = { version = "0.25", default-features = false }
imageproc = { version = "0.25", default-features = false }
x11rb = { version = "0.13", features = ["xtest"] }
