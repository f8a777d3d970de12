[package]
name = "vector_topology"
version = "0.1.0"
edition = "2021"
publish = false

[dependencies]
indexmap = { version = "1", features = ["serde-1"] }
toml = "0.5"
serde = { version = "1", features = ["derive"] }
snafu = "0.6"
typetag = "0.1"
inventory = "0.1"
async-trait = "0.1"
dyn-clone = "1"
metrics = "*"
futures = "0.1"
tokio = "0.1"
