[package]
name = "node_health_check"
version = "0.1.0"
edition = "2021"
publish = false

[dependencies]
kube = { version = "=3.1.0", features = ["runtime", "derive", "client"] }
k8s-openapi = { version = "=0.27.1", features = ["latest"] }
tokio = { version = "=1.53.2", features = ["macros", "rt-multi-thread", "signal", "time"] }
futures = "=0.3.34"
serde = { version = "=1.0.229", features = ["derive"] }
serde_json = "=1.0.151"
schemars = "=1.2.2"
thiserror = "=2.0.21"
port_check = "=0.3.0"
reqwest = { version = "=0.13.5", features = ["json"] }
tokio-postgres = "=0.7.18"
postgres-openssl = "=0.5.3"
openssl = "=0.10.81"
