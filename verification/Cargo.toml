[package]
name = "unification_store"
version = "0.1.0"
edition = "2021"
publish = false

[dependencies]
dogged = "=0.2.0"
