[package]
name = "mem_analyze"
version = "0.1.0"
edition = "2021"
publish = false

[dependencies]
byteorder = "*"
sysinfo = "*"
chrono = "*"
clap = "*"
log = "*"
simplelog = "*"
sys-info = "*"
rusoto_core = "*"
rusoto_s3 = "*"
tokio = { version = "*", features = ["rt"] }
