[package]
name = "pruning_args"
version = "0.1.0"
edition = "2021"
publish = false

[dependencies]
alloy-primitives = "=1.7.3"
clap = { version = "=4.6.7", features = ["derive"] }
