[package]
name = "lldbui"
version = "0.1.0"
edition = "2021"
publish = false

[dependencies]
lldb = "*"
clap = { version = "*", features = ["derive"] }
