[package]
name = "chat_gate"
version = "0.1.0"
edition = "2021"
publish = false

[dependencies]
async-trait = "=0.1.92"
confy = "=2.0.0"
instagram-scraper-rs = "=0.1.0"
pretty_env_logger = "=0.5.0"
serde = "=1.0.229"
serde_derive = "=1.0.229"
telegram-bot2 = { version = "=0.3.7", features = ["commands"] }
tokio = { version = "=1.53.2", features = ["macros", "rt-multi-thread"] }
