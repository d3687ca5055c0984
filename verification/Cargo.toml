[package]
name = "remote_helper"
version = "0.1.0"
edition = "2021"
publish = false

[dependencies]
futures = "0.1"
tokio = "0.1"
future-utils = "*"
void = "1"
