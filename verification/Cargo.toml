[package]
name = "lev"
version = "0.1.0"
edition = "2021"
publish = false

[dependencies]
failure = "0.1"
futures = "0.1"
rusoto_core = "0.42"
rusoto_lambda = "0.42"
structopt = "0.2"
tokio = "0.1"
