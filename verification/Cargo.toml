[package]
name = "stun_proto"
version = "0.1.0"
edition = "2021"
publish = false

[dependencies]
log = "*"
pretty_env_logger = "*"
stunclient = "*"
tokio = { version = "1", features = ["net", "rt", "time", "macros", "sync"] }
