[package]
name = "webbench"
version = "0.1.0"
edition = "2021"
publish = false

[dependencies]
byte-unit = "*"
clap = { version = "*", features = ["derive"] }
http = "*"
num_cpus = "*"
tokio = { version = "*", features = ["rt-multi-thread", "net", "io-util", "signal", "time"] }
