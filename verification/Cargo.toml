[package]
name = "htmx-lsp"
version = "0.1.2"
edition = "2021"
publish = false

[dependencies]
anyhow = "1"
dashmap = "5.5.3"
ropey = "1.6.1"
serde = { version = "1", features = ["derive"] }
serde_json = "1"
tower-lsp = "0.20.0"
tree-sitter = "0.20.10"
tree-sitter-html = "0.19.0"
tree-sitter-javascript = "0.20.1"
tree-sitter-rust = "0.20.4"
walkdir = "2"
