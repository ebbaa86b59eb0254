[package]
name = "fpv_editor"
version = "0.1.0"
edition = "2021"
publish = false

[dependencies]
uuid = { version = "=1.29.0", features = ["v4", "serde"] }
serde = { version = "=1.0.229", features = ["derive"] }
serde_json = "=1.0.154"
anyhow = "=1.0.104"
thiserror = "=2.0.21"
clap = { version = "=4.6.7", features = ["derive"] }
tokio = { version = "=1.54.1", features = ["full"] }
reqwest = { version = "=0.12.28", default-features = false, features = ["json", "rustls-tls"] }
async-openai = { version = "=0.43.0", features = ["chat-completion"] }
rmcp = { version = "=3.8.0", features = ["server", "client", "transport-io"] }
wgpu = "=30.0.1"
pollster = "=1.0.1"
bytemuck = { version = "=1.25.2", features = ["derive"] }
