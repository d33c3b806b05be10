[package]
name = "ecma_de"
version = "0.1.0"
edition = "2021"
publish = false

[dependencies]
serde = "1"
swc_common = "*"
swc_ecma_ast = "*"
swc_ecma_parser = "*"
thiserror = "*"

[dev-dependencies]
serde_json = "1"
