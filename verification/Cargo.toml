[package]
name = "fleet_tail"
version = "0.1.0"
edition = "2021"
publish = false

[dependencies]
async-trait = "0.1"
clap = { version = "4", features = ["derive"] }
color-eyre = "0.6"
crossterm = "0.27"
russh = "0.44"
russh-keys = "0.44"
tokio = { version = "1", features = ["full"] }
