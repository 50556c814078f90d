[package]
name = "matrix_runner"
version = "0.1.0"
edition = "2021"
publish = false

[dependencies]
anyhow = "1"
clap = "4"
colored = "2"
dialoguer = "0.11"
fs_extra = "1"
futures = "0.3"
num_cpus = "1"
serde = { version = "1", features = ["derive"] }
serde_json = "1"
shellexpand = "3"
shlex = "1"
sys-locale = "0.3"
tempfile = "3"
tokio = { version = "1", features = ["rt-multi-thread", "macros", "process", "signal", "time", "sync", "io-util"] }
tokio-util = "0.7"
toml = "0.8"
