[package]
name = "cassida_swc_plugin_next"
version = "0.1.0"
edition = "2021"
publish = false

[dependencies]
serde_json = "1"
swc_core = { version = "=57.0.0", features = ["ecma_plugin_transform", "ecma_ast", "ecma_visit", "common"] }
