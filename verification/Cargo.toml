[package]
name = "surreal_dbops"
version = "0.1.0"
edition = "2021"
publish = false

[dependencies]
sha2 = "0.10"
base64 = "0.22"
chrono = "0.4"
serde = { version = "1", features = ["derive"] }
serde_json = "1"
serde_yaml = "0.9"
tokio = { version = "1", features = ["macros", "rt-multi-thread", "net", "time", "sync"] }
futures = "0.3"
tracing = "0.1"
tracing-subscriber = { version = "0.3", default-features = false, features = ["fmt", "std"] }
anyhow = "1"
thiserror = "1"
axum = "0.7"
hyper-util = { version = "0.1", features = ["tokio", "server", "server-auto", "service"] }
tokio-rustls = "0.26"
rustls-pemfile = "2"
kube = { version = "*", features = ["runtime", "derive"] }
k8s-openapi = { version = "*", features = ["latest"] }
schemars = "*"
surrealdb = { version = "3", default-features = false, features = ["protocol-ws"] }
surrealdb-types = "3"
