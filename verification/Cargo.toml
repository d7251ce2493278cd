[package]
name = "dirkv"
version = "0.1.0"
edition = "2021"
publish = false

[dependencies]
anyhow = "1"
bson = "2"
clap = { version = "4", features = ["derive"] }
easy-repl = "0.2"
log = { version = "0.4", features = ["serde"] }
log4rs = "1"
rand = "0.9"
serde = { version = "1", features = ["derive"] }
serde_yaml = "0.9"
sha256 = { version = "1", default-features = false }
