[package]
name = "delta_bench"
version = "0.1.0"
edition = "2021"
publish = false

[dependencies]
url = "*"
sha2 = "=0.10.9"
serde = { version = "*", features = ["derive"] }
serde_json = "*"
serde_yaml = "=0.9.34"
clap = { version = "*", features = ["derive", "env"] }
chrono = { version = "*", features = ["serde"] }
tokio = { version = "*", features = ["macros", "rt-multi-thread", "process", "time"] }
rand = "=0.8.8"
rand_chacha = "=0.3.1"
tempfile = "*"
