[package]
name = "update_qtile"
version = "0.1.0"
edition = "2021"
publish = false

[dependencies]
anyhow = "1"
clap = { version = "4", features = ["derive"] }
git2 = "*"
glob = "0.3"
log = "0.4"
regex = "1"
serde_json = "1"
simple_logger = "5"
subprocess = "0.2"
text_io = "0.1"
