[package]
name = "nooqie"
version = "0.1.0"
edition = "2021"
publish = false

[dependencies]
clap = { version = "=4.6.7", default-features = false, features = ["cargo", "derive", "error-context", "help", "std", "usage"] }
dotenvy = "=0.15.7"
env_logger = { version = "=0.11.11", default-features = false }
log = "=0.4.34"
poise = { version = "=0.6.2", default-features = false, features = ["cache"] }
regex = "=1.13.1"
reqwest = { version = "=0.11.27", default-features = false, features = ["rustls-tls"] }
rustls = { version = "=0.23.46", default-features = false, features = ["ring", "std"] }
serde = { version = "=1.0.229", features = ["derive"] }
serde_json = "=1.0.154"
serenity = { version = "=0.12.5", default-features = false, features = ["builder", "cache", "client", "framework", "gateway", "model", "rustls_backend", "standard_framework"] }
songbird = { version = "=0.4.6", default-features = false, features = ["builtin-queue", "driver", "gateway", "rustls", "serenity"] }
tokio = { version = "=1.54.1", features = ["macros", "rt-multi-thread", "signal"] }
