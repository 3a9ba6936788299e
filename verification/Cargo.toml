[package]
name = "gs_tbk"
version = "0.1.0"
edition = "2021"
publish = false

[dependencies]
curv-kzen = "0.10"
sha2 = "0.10"
num-bigint = "0.4"
num = "0.4"
serde = { version = "1", features = ["derive"] }
serde_json = "1"
tokio = { version = "1", features = ["full"] }
tokio-util = { version = "0.7", features = ["codec"] }
tokio-stream = "0.1"
anyhow = "1"
log = "0.4"
log4rs = "1"
rayon = "1"
encoding = "0.2"
libc = "0.2"
