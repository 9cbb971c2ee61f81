[package]
name = "consair"
version = "0.1.0"
edition = "2021"
publish = false

[dependencies]
dirs = "5"
inkwell = { version = "0.5", features = ["llvm17-0"] }
rustyline = "14"
