[package]
name = "whisper2_lib"
version = "0.1.0"
edition = "2021"
publish = false

[dependencies]
serde_json = "*"
time = { version = "*", features = ["parsing", "formatting"] }
url = "*"
serde = { version = "*", features = ["derive"] }
reqwest = { version = "*", default-features = false, features = ["json"] }
tokio = { version = "*", features = ["rt", "rt-multi-thread", "sync", "time", "macros"] }
bytes = "*"
async-trait = "*"
