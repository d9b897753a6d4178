[package]
name = "code_editor"
version = "0.1.0"
edition = "2021"
publish = false

[dependencies]
cached = { version = "0.53", default-features = false }
egui = "0.28"
lazy_static = "1"
tree-sitter = "0.22"
tree-sitter-highlight = "0.22"
tree-sitter-html = "0.20"
tree-sitter-javascript = "0.21"
tree-sitter-typescript = "0.21"
