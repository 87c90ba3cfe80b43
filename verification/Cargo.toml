[package]
name = "tarkine"
version = "0.1.0"
edition = "2021"
publish = false

[dependencies]
anyhow = "1"
axum = "0.6"
bytecheck = "0.6"
flashmap = "*"
futures = "0.3"
futures-lite = "1"
fuzzy-matcher = "0.3"
glommio = "*"
itertools = "0.10"
rand = "0.8"
rkyv = { version = "0.7", features = ["validation"] }
serde = { version = "1", features = ["derive"] }
serde_json = "1"
sled = "0.34"
tachyonix = "*"
tarpc = { version = "*", features = ["full"] }
thiserror = "1"
tokio = { version = "1", features = ["rt", "net", "time", "macros"] }
tracing = "0.1"
tracing-subscriber = { version = "0.3", features = ["env-filter"] }

[dev-dependencies]
unicode-segmentation = "1"
