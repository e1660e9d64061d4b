[package]
name = "symgraph"
version = "0.1.0"
edition = "2021"
publish = false

[dependencies]
anyhow = "1"
cargo_metadata = "0.18"
chrono = "0.4"
clang = "2"
clap = { version = "4", features = ["derive"] }
log = "0.4"
regex = "1"
rusqlite = "0.31"
serde = { version = "1", features = ["derive"] }
serde_json = { version = "1", features = ["preserve_order"] }
shell-words = "1"
sled = "0.34"
syn = { version = "2", features = ["full", "visit"] }
tempfile = "3"
tree-sitter = "0.20"
tree-sitter-javascript = "0.20"
tree-sitter-python = "0.20"
tree-sitter-typescript = "0.20"
uuid = { version = "1", features = ["v4"] }
walkdir = "2"
