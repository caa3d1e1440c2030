[package]
name = "taintlint"
version = "0.1.0"
edition = "2021"
publish = false

[dependencies]
regex = "1"
tree-sitter = "0.25"

[dev-dependencies]
tree-sitter-go = "*"
tree-sitter-c = "*"
tree-sitter-bash = "*"
tree-sitter-java = "*"
tree-sitter-c-sharp = "*"
tree-sitter-sfapex = "*"
