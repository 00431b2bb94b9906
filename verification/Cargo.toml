[package]
name = "shogi_thread_bot"
version = "0.1.0"
edition = "2021"
publish = false

[dependencies]
shogi_core = "*"
shogi_usi_parser = "*"
shogi_legality_lite = "*"
shogi-kifu-converter = "*"
shogi-img = "*"
bsky-sdk = "*"
tokio = { version = "*", features = ["macros", "rt-multi-thread"] }
log = "*"
env_logger = "*"
