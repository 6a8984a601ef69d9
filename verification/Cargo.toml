[package]
name = "riscu_emu"
version = "0.1.0"
edition = "2021"

[dependencies]
riscu = "*"
