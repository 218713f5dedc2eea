[package]
name = "task_mon"
version = "0.1.0"
edition = "2021"
publish = false

[dependencies]
uuid = { version = "1", features = ["v4"] }
clap = { version = "3", features = ["derive", "env"] }
hostname = "0.3"
subprocess = "0.2"
ureq = "2"
