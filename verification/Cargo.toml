[package]
name = "to_query_params"
version = "0.1.0"
edition = "2021"
publish = false

[dependencies]
quote = "1"
syn = "2"
urlencoding = "2"
