[package]
name = "signal_only_server"
version = "0.1.0"
edition = "2021"
publish = false

[dependencies]
futures = "=0.3.34"
json = "=0.12.4"
