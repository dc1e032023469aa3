[package]
name = "sisyphus"
version = "0.1.0"
edition = "2021"
publish = false

[dependencies]
allocative = "=0.3.6"
anyhow = "=1.0.104"
clap = { version = "=4.6.7", default-features = false, features = ["derive", "env", "error-context", "help", "std", "usage"] }
console = { version = "=0.16.6", default-features = false, features = ["std"] }
docker_credential = "=1.4.0"
docker-registry = "=0.9.0"
futures = { version = "=0.3.34", default-features = false, features = ["std"] }
json-patch = "=4.2.0"
k8s-openapi = { version = "=0.27.1", features = ["latest"] }
kube = { version = "=3.1.0", default-features = false, features = ["client", "jsonpatch", "ring", "rustls-tls"] }
serde = { version = "=1.0.229", features = ["derive"] }
serde_json = "=1.0.154"
serde_yaml = "=0.9.34"
similar = "=3.2.1"
sqlx-core = { version = "=0.9.0", features = ["_rt-tokio", "any"] }
starlark = "=0.14.2"
tempfile = "=3.27.0"
tokio = { version = "=1.54.1", features = ["fs", "macros", "process", "rt", "time"] }
