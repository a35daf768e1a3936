[package]
name = "native_ocel"
version = "0.1.0"
edition = "2021"
publish = false

[dependencies]
arrow-array = "55"
arrow-ipc = "55"
arrow-schema = "55"
chrono = "0.4"
jni = "0.21"
once_cell = "1"
process_mining = { version = "=0.3.19", features = ["ocel-sqlite"] }
serde = { version = "1", features = ["derive"] }
serde_json = { version = "1", features = ["preserve_order"] }
