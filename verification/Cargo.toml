[package]
name = "module_graph"
version = "0.1.0"
edition = "2021"
publish = false

[dependencies]
anyhow = "1"
futures = "0.3"
parking_lot = "0.12"
