[package]
name = "auto_api"
version = "0.1.0"
edition = "2021"
publish = false

[dependencies]
serde_json = { version = "1", features = ["preserve_order"] }
proc-macro2 = "1"
quote = "1"
syn = { version = "2", features = ["full"] }
thiserror = "1"
reqwest = { version = "0.11", default-features = false, features = ["blocking", "rustls-tls"] }

[dev-dependencies]
fancy-regex = "*"
