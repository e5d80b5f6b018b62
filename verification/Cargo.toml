[package]
name = "lexical_core"
version = "0.1.0"
edition = "2021"
publish = false

[dependencies]
smallvec = "0.6"
stackvector = "*"
