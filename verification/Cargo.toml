[package]
name = "cosmic_app_library"
version = "0.1.0"
edition = "2021"
publish = false

[dependencies]
shlex = "1"
serde = { version = "1", features = ["derive"] }
serde_json = "1"
clap = { version = "4", features = ["derive"] }
log = "0.4"
itertools = "*"
tokio = { version = "1", features = ["rt", "process"] }
zbus = "*"
