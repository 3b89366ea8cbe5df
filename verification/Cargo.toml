[package]
name = "composer"
version = "0.10.8"
edition = "2021"
publish = false

[dependencies]
anyhow = "1"
axum = { version = "0.8", default-features = false, features = ["http1", "tokio"] }
byte-unit = "5"
chrono = "0.4"
chrono-tz = "0.10"
clap = { version = "4", features = ["derive", "env"] }
cron = "*"
env_logger = "*"
hostname = "*"
humantime = "2"
inquire = "*"
libc = "0.2"
log = "0.4"
metrics = "*"
metrics-exporter-opentelemetry = "*"
notify = "*"
opentelemetry = "*"
opentelemetry-otlp = { version = "*", default-features = false, features = ["metrics", "http-proto", "reqwest-client"] }
prettytable-rs = { version = "0.10", default-features = false }
regex = "1"
reqwest = { version = "0.12", default-features = false, features = ["json", "rustls-tls"] }
serde = { version = "1", features = ["derive"] }
serde_json = "1"
serde_yaml = "0.9"
sysinfo = "*"
term = "0.7"
tokio = { version = "1", features = ["full"] }
tokio-util = "0.7"
whoami = "1"
x509-parser = "*"
