[package]
name = "stmux"
version = "0.1.0"
edition = "2021"
publish = false

[dependencies]
clap = { version = "4", features = ["derive"] }
dirs-next = "2"
nix = { version = "0.29", features = ["fs"] }
