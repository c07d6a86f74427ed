[package]
name = "dicom_dictionary"
version = "0.1.0"
edition = "2021"
publish = false

[dependencies]
quick-xml = "0.22"
clap = "2"
futures = "0.1"
hyper = "0.11"
tokio-core = "0.1"
serde = { version = "1", features = ["derive"] }
serde_json = "1"
lazy_static = "1"
