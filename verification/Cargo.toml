[package]
name = "ikigai_name"
version = "0.1.0"
edition = "2021"
publish = false

[dependencies]
ikigai-core = "*"
ikigai-fs = "*"
ikigai-sparql = "*"
ikigai-web = "*"
serde = { version = "1", features = ["derive"] }
serde_json = "1"
tokio = { version = "1", features = ["macros", "rt-multi-thread"] }

[dev-dependencies]
ikigai-a11y = "*"
