[package]
name = "magento2-ls"
version = "0.1.0"
edition = "2021"
publish = false

[dependencies]
anyhow = "1"
lsp-server = "0.7"
lsp-types = "0.94"
serde = "1"
serde_json = "1"
