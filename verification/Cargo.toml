[package]
name = "true_track_proxy"
version = "0.1.0"
edition = "2021"
publish = false

[dependencies]
async-trait = "=0.1.92"
bytes = "=1.12.1"
http = "=1.5.0"
log = "=0.4.35"
openssl = "=0.10.82"
pingora = { version = "=0.9.1", features = ["lb", "proxy", "openssl"] }
pingora-error = "=0.9.1"
rustls-pemfile = "=2.2.0"
serde = { version = "=1.0.229", features = ["derive"] }
serde_json = "=1.0.154"
toml = "=1.1.8"
tracing = "=0.1.44"
tracing-appender = "=0.2.5"
tracing-subscriber = { version = "=0.3.23", features = ["chrono", "env-filter"] }
x509-parser = "=0.18.1"
