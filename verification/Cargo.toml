[package]
name = "logcat"
version = "0.1.0"
edition = "2021"
publish = false

[dependencies]
chrono = "*"
anyhow = "*"
clap = { version = "*", features = ["derive"] }
process-stream = "*"
tokio = { version = "*", features = ["rt-multi-thread", "macros", "time"] }
termcolor = "*"
term_size = "*"
which = "*"
