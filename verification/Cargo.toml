[package]
name = "giss"
version = "0.1.0"
edition = "2021"
publish = false

[dependencies]
clap = "2"
dirs-next = "2"
env_logger = "0.9"
futures = "0.3"
giro = "*"
itertools = "0.10"
log = "0.4"
regex = "1"
reqwest = { version = "0.11", default-features = false, features = ["json", "rustls-tls"] }
serde = { version = "1", features = ["derive"] }
serde_json = "1"
sha2 = "0.8"
structopt = "0.3"
termcolor = "1"
tokio = { version = "1", features = ["rt-multi-thread", "macros"] }
