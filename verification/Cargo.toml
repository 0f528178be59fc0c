[package]
name = "project_scaffold"
version = "0.1.0"
edition = "2021"
publish = false

[dependencies]
cargo_toml = "0.15"
cargo-toml-builder = "*"
chrono = "0.4"
zip = "0.6"
dotenv = "0.15"
thiserror = "1"
tracing = "0.1"
actix-web = "4"
