[package]
name = "cairo-annotations"
version = "0.1.0"
edition = "2021"
publish = false

[dependencies]
cairo-lang-sierra = "*"
cairo-lang-sierra-to-casm = "*"
camino = { version = "1", features = ["serde1"] }
derive_more = { version = "*", features = ["full"] }
lazy_static = "1"
regex = "1"
serde = { version = "1", features = ["derive"] }
serde_json = "1"
starknet-types-core = "*"
strum = "*"
strum_macros = "*"
thiserror = "*"
