[package]
name = "resyn"
version = "0.1.0"
edition = "2021"
publish = false

[dependencies]
clap = { version = "4", features = ["derive"] }
clap-verbosity-flag = "2"
cpal = "0.15"
dasp = "0.11"
log = "0.4"
pretty_env_logger = "0.5"
reqwest = { version = "0.11", default-features = false, features = ["blocking"] }
rodio = "0.17"
vosk = "0.2"
