[package]
name = "odf_preview"
version = "0.1.0"
edition = "2021"
publish = false

[dependencies]
roxmltree = "=0.18.1"
