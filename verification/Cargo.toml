[package]
name = "shinobi_solver"
version = "0.1.0"
edition = "2021"
publish = false

[dependencies]
alloy-primitives = { version = "0.8", default-features = false, features = ["std"] }
alloy-sol-types = { version = "0.8", default-features = false, features = ["std"] }
alloy-provider = { version = "0.4", default-features = false, features = ["reqwest", "ws", "pubsub"] }
alloy-pubsub = { version = "0.4", default-features = false }
alloy-rpc-types = { version = "0.4", default-features = false, features = ["eth"] }
alloy-transport-http = { version = "0.4", default-features = false, features = ["reqwest"] }
alloy-transport-ws = { version = "0.4", default-features = false }
async-trait = "0.1"
futures = { version = "0.3", default-features = false, features = ["std"] }
hex = "0.4"
reqwest = { version = "0.12", default-features = false }
serde = { version = "1", features = ["derive"] }
serde_json = "1"
tokio = { version = "1", default-features = false, features = ["sync", "time", "rt", "macros"] }
toml = { version = "0.8", default-features = false }
tracing = { version = "0.1", default-features = false, features = ["std"] }
