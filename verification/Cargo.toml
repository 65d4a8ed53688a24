[package]
name = "cpc_breadcrumbs"
version = "0.3.1"
edition = "2021"
publish = false

[dependencies]
chrono = "0.4"
hostname = "0.4"
serde = { version = "1", features = ["derive"] }
serde_json = "1"
