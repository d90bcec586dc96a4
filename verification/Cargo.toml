[package]
name = "rgs"
version = "0.1.0"
edition = "2021"
publish = false

[dependencies]
chrono = "0.4"
handlebars = "6"
iso_country = "0.1"
bimap = "0.6"
byteorder = "1"
serde = { version = "1", features = ["derive"] }
serde_json = "1"
thiserror = "2"
anyhow = "1"
tokio = { version = "1", features = ["full"] }
futures = "0.3"
hickory-resolver = "0.25"
surge-ping = "0.8"
rand = "0.8"
tracing = "0.1"
tracing-subscriber = { version = "0.3", features = ["env-filter"] }
