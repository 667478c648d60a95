[package]
name = "hermes"
version = "0.1.0"
edition = "2021"
publish = false

[dependencies]
anyhow = "=1.0.104"
clap = { version = "=4.6.7", features = ["derive"] }
config = { version = "=0.13.4", default-features = false, features = ["toml"] }
dirs = "=5.0.1"
pretty_env_logger = "=0.5.0"
serde = { version = "=1.0.229", features = ["derive"] }
# Not used directly: teloxide-core pulls it in, and 0.1.2 asks for a newer
# compiler than the rest of the tree, so it is held at 0.1.1.
takecell = "=0.1.1"
teloxide = { version = "=0.12.2", default-features = false, features = ["rustls"] }
tokio = { version = "=1.54.1", features = ["macros", "rt-multi-thread"] }
