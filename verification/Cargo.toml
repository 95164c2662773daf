[package]
name = "asset_resolver"
version = "0.1.0"
edition = "2021"
publish = false

[dependencies]
percent-encoding = "=2.3.2"
include_dir = "=0.7.4"
