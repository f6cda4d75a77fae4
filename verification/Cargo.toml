[package]
name = "chunk_enumeration"
version = "0.1.0"
edition = "2021"
publish = false

[dependencies]
swc_core = { version = "=83.0.0", features = ["common", "ecma_ast", "ecma_visit", "ecma_parser", "ecma_transforms"] }
