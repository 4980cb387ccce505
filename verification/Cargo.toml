[package]
name = "midas"
version = "0.1.0"
edition = "2021"
publish = false

[dependencies]
anyhow = "*"
axum = "*"
axum-tws = "*"
maud = "*"
serde = { version = "*", features = ["derive"] }
tokio = { version = "*", features = ["full"] }
tower-http = { version = "*", features = ["fs"] }
