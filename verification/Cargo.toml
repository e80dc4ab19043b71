[package]
name = "omf"
version = "0.1.0-beta.1"
edition = "2021"
publish = false

[dependencies]
bytes = "=1.12.1"
chrono = { version = "=0.4.39", default-features = false, features = ["std", "serde"] }
flate2 = "=1.1.10"
image = { version = "=0.25.10", default-features = false, features = ["png", "jpeg"] }
parquet = { version = "=53.4.1", default-features = false, features = ["flate2"] }
schemars = { version = "=0.8.22", features = ["chrono"] }
serde = { version = "=1.0.229", features = ["derive"] }
serde_json = "=1.0.154"
thiserror = "=1.0.69"
zip = { version = "=2.6.1", default-features = false }
