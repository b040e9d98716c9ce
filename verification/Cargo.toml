[package]
name = "bashtyped"
version = "0.1.0"
edition = "2021"

[dependencies]
ariadne = "0.4"
tree-sitter = "0.20"
tree-sitter-bash = "0.20"
