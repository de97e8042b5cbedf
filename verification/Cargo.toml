[package]
name = "voice_vox"
version = "0.1.0"
edition = "2021"
publish = false

[dependencies]
base64 = "0.13"
tokio = { version = "1", default-features = false, features = ["rt-multi-thread", "macros", "sync", "time"] }
reqwest = { version = "0.11", default-features = false, features = ["json"] }
async-trait = "0.1"
once_cell = "1"
uuid = { version = "1", features = ["v4"] }
serde = { version = "1", features = ["derive"] }
log = "0.4"
simple-log = "1"
