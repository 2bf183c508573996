[package]
name = "imbibe"
version = "0.1.0"
edition = "2021"
publish = false

[dependencies]
cosmrs = "*"
k256 = "*"
sha2 = "*"
sha3 = "*"
base64 = "*"
jiff = "*"
tendermint = "*"
tendermint-rpc = { version = "*", features = ["websocket-client"] }
tokio = { version = "*", features = ["rt-multi-thread", "macros", "sync"] }
futures = "*"
serde_json = "*"
anyhow = "*"
