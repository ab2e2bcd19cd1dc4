[package]
name = "rollup_kernels"
version = "0.1.0"
edition = "2021"
publish = false

[dependencies]
tezos-smart-rollup = { version = "=0.2.2", default-features = false, features = ["std", "crypto", "data-encoding", "storage"] }
tezos-smart-rollup-host = "=0.2.2"
tezos-smart-rollup-entrypoint = { version = "=0.2.2", default-features = false, features = ["std", "alloc"] }
tezos_data_encoding = "=0.5.2"
ed25519-compact = "=2.6.0"
serde-json-wasm = "=1.0.1"
serde = { version = "=1.0.229", features = ["derive"] }
anyhow = "=1.0.104"
async-trait = "=0.1.92"
actix-web = { version = "4", default-features = false, features = ["macros"] }
tezos-smart-rollup-mock = "=0.2.2"
