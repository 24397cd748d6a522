[package]
name = "fluxora"
version = "0.1.0"
edition = "2021"
publish = false

[dependencies]
anyhow = "1"
arc-swap = "1"
axum = { version = "*", features = ["ws"] }
axum-extra = { version = "*", features = ["cookie"] }
chrono = { version = "0.4", features = ["serde"] }
ciborium = "0.2"
dashmap = "6"
figment = { version = "0.10", features = ["toml", "env"] }
futures = "0.3"
indexmap = { version = "2", features = ["serde"] }
minijinja = "2"
notify = "*"
proc-macro2 = "1"
quote = "1"
rdkafka = "*"
serde = { version = "1", features = ["derive"] }
serde_json = "1"
serde_with = { version = "3", features = ["indexmap_2"] }
syn = { version = "2", features = ["full", "extra-traits"] }
tokio = { version = "1", features = ["full"] }
tower-http = { version = "*", features = ["fs"] }
tracing = "0.1"
tracing-subscriber = { version = "0.3", features = ["env-filter", "json"] }
