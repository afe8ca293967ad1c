[package]
name = "localbench"
version = "1.2.1"
edition = "2021"
publish = false

[dependencies]
reqwest = { version = "*", default-features = false, features = ["blocking", "json"] }
serde = { version = "1", features = ["derive"] }
serde_json = "1"
sysinfo = { version = "*", default-features = false, features = ["system"] }
tempfile = "3"
thiserror = "*"
tokio = { version = "1", features = ["rt-multi-thread"] }
