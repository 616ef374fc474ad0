[package]
name = "osm_stream"
version = "0.1.0"
edition = "2021"
publish = false

[dependencies]
quick-xml = "*"
flate2 = "*"
bzip2 = "*"
