[package]
name = "maxminddb_polars"
version = "0.1.0"
edition = "2021"
publish = false

[dependencies]
maxminddb = "=0.32.0"
serde = { version = "=1.0.229", features = ["derive"] }
serde_json = "=1.0.154"
rayon = "=1.12.0"
polars = { version = "=0.55.2", default-features = false, features = ["dtype-struct", "dtype-i128", "dtype-u128"] }
polars-arrow = "=0.55.2"
polars-core = "=0.55.2"
polars-utils = "=0.55.2"
pyo3 = "=0.29.3"
pyo3-polars = { version = "=0.28.0", features = ["derive"] }
windows-sys = { version = "=0.61.2", features = ["Win32_Storage_FileSystem"] }
