[package]
name = "storm"
version = "0.1.0"
edition = "2021"
publish = false

[dependencies]
anyhow = "=1.0.104"
bytemuck = "=1.25.2"
data-url = "=0.3.2"
glam = "=0.34.2"
serde = { version = "=1.0.229", features = ["derive"] }
serde_json = "=1.0.154"
serde_repr = "=0.1.21"
thiserror = "=2.0.21"
uuid = { version = "1", features = ["v4"] }
