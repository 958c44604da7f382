[package]
name = "tgbot"
version = "0.1.0"
edition = "2021"
publish = false

[dependencies]
anyhow = "1"
chrono = "=0.4.45"
dotenvy = "0.15"
dptree = "=0.3.0"
log = "0.4"
pretty_env_logger = "0.5"
rand = "=0.8.8"
redis = { version = "=0.25.5", features = ["tokio-comp", "streams"] }
reqwest = { version = "=0.11.27", features = ["json"] }
serde = { version = "1", features = ["derive"] }
serde_json = "1"
# Not used directly: holds teloxide's transitive takecell below 0.1.2,
# whose rust-version is newer than the toolchain here.
takecell = "=0.1.1"
teloxide = { version = "=0.12.2", features = ["macros"] }
tokio = { version = "1", features = ["macros", "rt-multi-thread"] }
