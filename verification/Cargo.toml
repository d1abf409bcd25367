[package]
name = "agent_workbench"
version = "0.1.0"
edition = "2021"
publish = false

[dependencies]
sha2 = "0.10"
serde = { version = "1", features = ["derive"] }
serde_json = "1"
yaml_serde = "*"
rusqlite = { version = "*", features = ["bundled"] }
anyhow = "1"
