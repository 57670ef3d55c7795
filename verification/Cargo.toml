[package]
name = "deepdecipher"
version = "0.1.0"
edition = "2021"
publish = false

[dependencies]
anyhow = "1"
async-trait = "0.1"
clap = { version = "4", features = ["derive"] }
env_logger = "0.10"
graphviz-rust = "*"
half = { version = "2", features = ["serde"] }
itertools = "*"
log = "0.4"
log-panics = "2"
multi_log = "*"
postcard = { version = "1", features = ["alloc"] }
regex = "1"
reqwest = { version = "*", default-features = false, features = ["json"] }
rusqlite = { version = "*", features = ["bundled"] }
scraper = "*"
serde = { version = "1", features = ["derive"] }
serde_json = "1"
snap = "1"
strum = { version = "*", features = ["derive"] }
tokio = { version = "1", features = ["full"] }
tokio-rusqlite = "*"
utoipa = "*"

[dev-dependencies]
