[package]
name = "local_cache_proxy"
version = "0.1.0"
edition = "2021"
publish = false

[dependencies]
hex = "0.4"
http = "0.1"
hyper = "0.12"
futures = "0.1"
tokio = "0.1"
log = "0.4"
protobuf = "2"
tempdir = "0.3"
rand = "0.8"
clap = "2"
