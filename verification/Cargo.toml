[package]
name = "disperse"
version = "0.1.0"
edition = "2021"
publish = false

[dependencies]
alloy = { version = "*", default-features = false, features = ["std", "reqwest", "contract", "network", "node-bindings", "providers", "provider-http", "provider-anvil-api", "rpc-types-eth", "signer-local"] }
dotenv = "0.15"
serde = { version = "1", features = ["derive"] }
serde_json = "1"
tokio = { version = "1", default-features = false, features = ["macros", "rt-multi-thread"] }
