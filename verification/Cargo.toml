[package]
name = "kdl_doc"
version = "0.1.0"
edition = "2021"
publish = false

[dependencies]
kdl = "4"
