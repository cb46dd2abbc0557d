[package]
name = "domains_dns"
version = "0.1.0"
edition = "2021"
publish = false

[dependencies]
clap = "=4.6.7"
cli-engine = "=0.10.4"
progenitor-client = "=0.15.1"
reqwest = { version = "=0.13.5", default-features = false }
schemars = { version = "=1.2.3", features = ["derive"] }
serde = { version = "=1.0.229", features = ["derive"] }
serde_json = "=1.0.154"
thiserror = "=2.0.21"
