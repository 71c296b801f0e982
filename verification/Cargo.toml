[package]
name = "unremark"
version = "0.1.0"
edition = "2021"
publish = false

[dependencies]
regex = "1"
serde = { version = "1", features = ["derive"] }
serde_json = "1"
tree-sitter = "*"
tree-sitter-python = "*"
tree-sitter-javascript = "*"
tree-sitter-typescript = "*"
tree-sitter-rust = "*"
reqwest = { version = "*", default-features = false, features = ["json"] }
tokio = { version = "1", features = ["rt-multi-thread", "macros", "time"] }
futures = "*"
parking_lot = "*"
dirs = "*"
log = "*"
env_logger = "*"
clap = { version = "4", features = ["derive"] }
walkdir = "2"
dotenv = "*"
