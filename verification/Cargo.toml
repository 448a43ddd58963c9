[package]
name = "json_to_kdl"
version = "0.1.0"
edition = "2021"
publish = false

[dependencies]
kdl = "4"
miette = "5"
serde_json = { version = "1", features = ["preserve_order"] }
