[package]
name = "code_review_engine"
version = "0.1.0"
edition = "2021"
publish = false

[dependencies]
anyhow = "=1.0.104"
base64 = "=0.22.1"
dashmap = "=6.1.0"
dirs = "=5.0.1"
eframe = { version = "=0.30.0", default-features = false, features = ["glow"] }
git2 = "=0.19.0"
libc = "=0.2.191"
num_cpus = "=1.17.0"
reqwest = { version = "=0.12.28", default-features = false, features = ["blocking", "json", "default-tls"] }
serde = { version = "=1.0.229", features = ["derive"] }
serde_json = "=1.0.154"
similar = "=2.7.0"
tracing = "=0.1.44"
tree-sitter = "=0.24.7"
tree-sitter-go = "=0.23.4"
tree-sitter-javascript = "=0.23.1"
tree-sitter-python = "=0.23.6"
tree-sitter-rust = "=0.23.3"
tree-sitter-typescript = "=0.23.2"
