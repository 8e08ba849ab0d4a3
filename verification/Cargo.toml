[package]
name = "trie_audit"
version = "0.1.0"
edition = "2021"
publish = false

[dependencies]
anyhow = "1"
casper-execution-engine = "=7.0.3"
casper-hashing = "=3.0.0"
casper-types = "=4.0.2"
lmdb = "=0.8.0"
structopt = "=0.3.26"
