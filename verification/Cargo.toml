[package]
name = "tari_indexer"
version = "0.1.0"
edition = "2021"
publish = false

[dependencies]
dashmap = "*"
serde = { version = "1", features = ["derive"] }
serde_json = "1"
ciborium = "*"
hex = "*"
tari_ootle_common_types = "*"
tari_engine_types = "*"
tari_template_lib_types = "*"
tari_indexer_lib = "*"
tari_bor = "*"
