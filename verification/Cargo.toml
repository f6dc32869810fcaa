[package]
name = "dispenser"
version = "0.1.0"
edition = "2021"
publish = false

[dependencies]
async-trait = "0.1"
axum = "=0.8.9"
base64 = "=0.22.1"
bollard = "=0.21.1"
chrono = "=0.4.45"
clap = { version = "=4.6.7", features = ["derive"] }
cron = { version = "=0.17.0", features = ["serde"] }
env_logger = "=0.11.11"
futures-util = "0.3"
http = "=1.5.0"
instant-acme = "=0.8.5"
log = "0.4"
minijinja = { version = "=3.0.3", features = ["serde"] }
openssl = "*"
pingora = { version = "*", features = ["openssl"] }
nix = { version = "=0.31.3", features = ["signal"] }
rayon = "=1.12.0"
rcgen = "=0.14.10"
sd-notify = "=0.5.0"
serde = { version = "1", features = ["derive"] }
serde_json = "1"
signal-hook = "=0.4.5"
thiserror = "=2.0.21"
tokio = { version = "1", features = ["full"] }
toml = "=1.1.8"
urlencoding = "=2.1.3"
uuid = { version = "=1.29.0", features = ["v7", "serde"] }
x509-parser = "=0.18.1"
