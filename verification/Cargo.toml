[package]
name = "schengen-server"
version = "0.1.0"
edition = "2021"
publish = false

[dependencies]
anyhow = "=1.0.104"
ashpd = { version = "=0.13.13", features = ["input_capture"] }
chrono = "0.4"
clap = { version = "4", features = ["derive"] }
env_logger = "0.11"
futures-util = "0.3"
kbvm = "=0.2.0"
libc = "0.2"
log = "=0.4.35"
reis = "=0.7.1"
schengen = "=0.2.0"
tokio = { version = "1", features = ["full"] }
