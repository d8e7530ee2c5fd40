[package]
name = "i3-alternate-focus"
version = "0.1.0"
edition = "2021"
publish = false

[dependencies]
i3ipc = "*"
