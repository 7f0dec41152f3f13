[package]
name = "qbe_lsp"
version = "0.1.0"
edition = "2021"
publish = false

[dependencies]
gibberish-core = "0.3"
im-rc = "15"
log = "0.4"
tower-lsp = "0.20"
