[package]
name = "ldk_node"
version = "0.1.0"
edition = "2021"
publish = false

[dependencies]
base64 = "=0.23.1"
bdk_chain = "=0.23.4"
bdk_electrum = { version = "0.23", default-features = false, features = ["use-rustls-ring"] }
bdk_esplora = { version = "0.22", default-features = false, features = ["async-https-rustls", "tokio"] }
bdk_wallet = "=2.4.0"
bip157 = "*"
bip39 = "=2.2.2"
bitcoin = "=0.32.102"
bytes = "1"
electrum-client = { version = "0.24", default-features = false, features = ["proxy", "use-rustls-ring"] }
esplora-client = { version = "0.12", default-features = false, features = ["tokio", "async-https-rustls"] }
http-body-util = "0.1"
hyper = { version = "1", features = ["server", "http1"] }
lightning = "=0.2.7"
lightning-block-sync = { version = "0.2", features = ["rest-client", "rpc-client", "tokio"] }
lightning-net-tokio = "0.2"
lightning-transaction-sync = { version = "0.2", features = ["esplora-async-https", "time", "electrum-rustls-ring"] }
lightning-types = "=0.3.5"
serde_json = "=1.0.154"
tokio = { version = "=1.54.1", features = ["rt", "rt-multi-thread", "sync", "time", "macros", "net"] }

[dev-dependencies]
lightning = { version = "=0.2.7", features = ["_test_utils"] }
