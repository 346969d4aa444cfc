[package]
name = "varnishslog_types"
version = "0.1.0"
edition = "2021"
publish = false

[dependencies]
linear-map = "=1.2.0"
serde_json = { version = "=1.0.154", features = ["raw_value"] }
