[package]
name = "savanna_smell_detector"
version = "0.1.0"
edition = "2021"
publish = false

[dependencies]
regex = "=1.13.1"
tree-sitter = "=0.25.10"
tree-sitter-python = "=0.23.6"
tree-sitter-swift = "=0.7.4"
syn = { version = "=2.0.119", features = ["full", "visit"] }
proc-macro2 = "=1.0.107"
quote = "=1.0.47"
serde = { version = "=1.0.229", features = ["derive"] }
serde_json = "=1.0.154"
serde_yaml = "=0.9.34"
toml = "=0.8.23"
clap = { version = "=4.6.7", features = ["derive"] }
colored = "=2.2.0"
glob = "=0.3.4"
chrono = "=0.4.45"
