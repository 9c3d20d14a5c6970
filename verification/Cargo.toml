[package]
name = "i3_companion"
version = "0.1.0"
edition = "2021"
publish = false

[dependencies]
async-trait = "*"
dirs = "*"
glob = "*"
libc = "*"
notify-rust = "*"
regex = "*"
serde = { version = "*", features = ["derive"] }
shellwords = "*"
tokio = { version = "*", features = ["macros", "rt", "time"] }
tokio-i3ipc = "*"
tokio-stream = "*"
toml = "*"
