[package]
name = "codegraph"
version = "0.1.0"
edition = "2021"
publish = false

[dependencies]
tree-sitter = "*"
tree-sitter-python = "*"
tree-sitter-typescript = "*"
tree-sitter-javascript = "*"
tree-sitter-rust = "*"
tree-sitter-go = "*"
tree-sitter-java = "*"
tree-sitter-cpp = "*"
tree-sitter-ruby = "*"
tree-sitter-php = "*"
serde = { version = "*", features = ["derive"] }
serde_json = "*"
axum = "*"
tokio = { version = "*", features = ["full"] }
futures = "*"
ignore = "*"
rayon = "*"
neo4rs = "*"
tower-http = { version = "*", features = ["cors"] }
