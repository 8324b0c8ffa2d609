[package]
name = "code_evolution"
version = "0.1.0"
edition = "2021"
publish = false

[dependencies]
chrono = "=0.4.45"
diff = "=0.1.13"
dirs = "=5.0.1"
fancy-regex = "*"
notify = "=4.0.18"
regex = "=1.13.1"
serde = { version = "=1.0.229", features = ["derive"] }
serde_json = "=1.0.154"
sha2 = "=0.10.9"
tree-sitter = "=0.20.10"
tree-sitter-javascript = "=0.20.4"
tree-sitter-python = "=0.20.4"
tree-sitter-typescript = "=0.20.5"
uuid = { version = "=1.29.0", features = ["v4"] }
