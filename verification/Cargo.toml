[package]
name = "dv_cli"
version = "0.1.0"
edition = "2021"
publish = false

[dependencies]
clap = { version = "=4.6.7", features = ["derive"] }
os2 = { version = "=0.1.1", features = ["rune"] }
home = "=0.5.12"
rune = "=0.14.2"
rune-modules = "=0.14.2"
tempfile = "=3.27.0"
tokio = { version = "=1.54.1", features = ["full"] }
tracing-subscriber = { version = "=0.3.23", features = ["env-filter"] }
