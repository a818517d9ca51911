[package]
name = "material_cost_engine"
version = "0.1.0"
edition = "2021"
publish = false

[dependencies]
calamine = "*"
chrono = "*"
color-eyre = "*"
rust_xlsxwriter = "*"
serde = { version = "*", features = ["derive"] }
toml = "*"
