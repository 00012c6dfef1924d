[package]
name = "emmylua_query"
version = "0.1.0"
edition = "2021"
publish = false

[dependencies]
emmylua_parser = "*"
rowan = "*"
