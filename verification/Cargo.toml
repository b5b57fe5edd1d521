[package]
name = "rkl"
version = "0.1.0"
edition = "2021"
publish = false

[dependencies]
anyhow = "1"
async-trait = "0.1"
chrono = "=0.4.45"
clap = { version = "4", features = ["derive"] }
cni-plugin = { version = "=0.2.1", default-features = false }
futures = "0.3"
hickory-proto = { version = "=0.25.2", features = ["serde"] }
hickory-resolver = "=0.25.2"
hickory-server = { version = "=0.25.2", features = ["resolver"] }
ipnet = { version = "=2.12.2", features = ["serde"] }
ipnetwork = "=0.17.0"
lazy_static = "1"
netavark = "=1.17.2"
nix = { version = "=0.31.3", features = ["user"] }
oci-spec = "=0.8.4"
serde = { version = "1", features = ["derive"] }
serde_json = "1"
sysinfo = "=0.30.13"
tabwriter = "=1.4.1"
thiserror = "2"
tokio = { version = "1", features = ["full"] }
tracing = "0.1"
