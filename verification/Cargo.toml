[package]
name = "dohee"
version = "0.1.0"
edition = "2021"
publish = false

[dependencies]
anyhow = "1"
arboard = { version = "3", default-features = false }
async-trait = "0.1"
clap = { version = "4", features = ["derive"] }
crossterm = "0.27"
encoding_rs = "0.8"
globset = "0.4"
html2md = "0.2"
ignore = "0.4"
landlock = "0.4"
llama-cpp-2 = "0.1"
minijinja = "2"
ratatui = "0.26"
regex = "1"
reqwest = { version = "0.12", default-features = false }
rusqlite = { version = "0.31", features = ["bundled"] }
serde = { version = "1", features = ["derive"] }
serde_json = "1"
sha2 = "0.10"
thiserror = "1"
tokio = { version = "1", features = ["full"] }
toml = "0.8"
tracing = "0.1"
tree-sitter = "0.22"
tree-sitter-rust = "0.21"
urlencoding = "2"
