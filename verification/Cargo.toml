[package]
name = "txn_ledger"
version = "0.1.0"
edition = "2021"
publish = false

[dependencies]
csv = "=1.4.0"
log = "=0.4.34"
pretty_env_logger = "=0.5.0"

[dev-dependencies]
round = "=0.1.2"
