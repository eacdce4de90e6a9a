[package]
name = "home_automation_core"
version = "0.1.0"
edition = "2021"
publish = false

[dependencies]
anyhow = "1"
ctrlc = "3"
rand = "0.8"
zmq = "0.10"
