[package]
name = "eggsecutor"
version = "1.0.0"
edition = "2021"
publish = false

[dependencies]
clap = "*"
shellexpand = "*"
