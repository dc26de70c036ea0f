[package]
name = "rcalc"
version = "0.1.0"
edition = "2021"
publish = false

[dependencies]
clap = { version = "3.2", features = ["derive"] }
inkwell = { version = "0.5", features = ["llvm17-0"] }
peg = "0.8"
