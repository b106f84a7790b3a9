[package]
name = "discord_tail_bot"
version = "0.1.0"
edition = "2021"
publish = false

[dependencies]
regex = "=1.13.1"
config = "=0.13.4"
env_logger = "=0.10.2"
log = "0.4"
secrecy = { version = "=0.8.0", features = ["serde"] }
serde = { version = "1", features = ["derive"] }
serenity = "=0.11.7"
tokio = { version = "1", features = ["macros", "rt-multi-thread", "time"] }
