[package]
name = "metadata"
version = "0.1.0"
edition = "2021"
publish = false

[dependencies]
chrono = "=0.4.45"
semver = "=1.0.28"
egui = "=0.32.3"
egui_extras = { version = "=0.32.3", features = ["datepicker"] }
egui-phosphor = "0.10"
polars = { version = "=0.55.2", default-features = false, features = ["parquet"] }
polars-parquet = "=0.55.2"
serde = { version = "1", features = ["derive"] }
thiserror = "2"
tracing = "0.1"
