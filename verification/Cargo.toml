[package]
name = "embed_core"
version = "0.1.0"
edition = "2021"
publish = false

[dependencies]
anyhow = "*"
clap = { version = "*", features = ["derive", "env"] }
num_cpus = "*"
serde = { version = "*", features = ["derive"] }
serde_json = "*"
tokenizers = { version = "*", default-features = false, features = ["onig"] }
tokio = { version = "*", features = ["rt-multi-thread", "sync", "macros", "time"] }
