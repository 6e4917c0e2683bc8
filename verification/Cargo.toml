[package]
name = "zim2waj"
version = "0.1.0"
edition = "2021"
publish = false

[dependencies]
clap = { version = "=4.6.7", features = ["derive"] }
dropout = "=0.1.0"
env_logger = "=0.11.11"
indicatif = "=0.18.6"
indicatif-log-bridge = "=0.2.3"
jubako = "=0.4.1"
libwaj = "=0.4.2"
log = "=0.4.34"
mime_guess = "=2.0.5"
rand = "=0.8.8"
rayon = "=1.12.0"
zim-rs = "=0.1.1"
