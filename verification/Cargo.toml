[package]
name = "media_dispatch"
version = "0.1.0"
edition = "2021"
publish = false

[dependencies]
uuid = { version = "1", features = ["v4"] }
sha1 = "0.10"
urlencoding = "2"
serde = { version = "1", features = ["derive"] }
serde_json = "1"
tokio = { version = "1", features = ["full"] }
warp = "0.3"
reqwest = { version = "0.12", features = ["json", "blocking"] }
kube = "0.98"
k8s-openapi = { version = "0.24", features = ["v1_30"] }
id3 = "1"
dotenv = "0.15"
lazy_static = "1"
