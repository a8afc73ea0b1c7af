[package]
name = "corex_ttk2"
version = "0.1.0"
edition = "2021"
publish = false

[dependencies]
encoding_rs = "0.8"
rand = "0.8"
chrono = "0.4"
reqwest = { version = "0.11", default-features = false, features = ["json"] }
tokio = { version = "1", features = ["full"] }
tokio-serial = "5"
async-trait = "0.1"
serde = { version = "1", features = ["derive"] }
serde_json = "1"
