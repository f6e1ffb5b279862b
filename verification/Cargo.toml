[package]
name = "vault_pipeline"
version = "0.1.0"
edition = "2021"
publish = false

[dependencies]
starknet = "*"
hex = "*"
rand = "*"
bigdecimal = "*"
serde = { version = "*", features = ["derive"] }
serde_json = "*"
sqlx = { version = "*", default-features = false, features = ["runtime-tokio", "postgres", "bigdecimal"] }
tokio = { version = "*", features = ["rt-multi-thread", "macros", "time"] }
