[package]
name = "reg_core"
version = "0.1.0"
edition = "2021"
publish = false

[dependencies]
pathdiff = "0.2"
path-clean = "1"
urlencoding = "2"
url = "2"
mustache = "*"
glob = "0.3"
rayon = "1"
serde = { version = "1", features = ["derive"] }
serde_json = "1"
thiserror = "1"
clap = { version = "4", features = ["derive"] }
once_cell = "1"
tracing = "0.1"
tracing-subscriber = "0.3"
