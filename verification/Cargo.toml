[package]
name = "jj-ryu"
version = "0.1.0"
edition = "2021"
publish = false

[dependencies]
reqwest = { version = "*", default-features = false, features = ["json"] }
serde = { version = "1", features = ["derive"] }
serde_json = "1"
tokio = { version = "1", features = ["time", "macros", "rt"] }
async-trait = "*"
anstream = "*"
dialoguer = { version = "*", default-features = false }
indicatif = "*"
tracing = "*"
