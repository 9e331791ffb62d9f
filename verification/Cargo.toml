[package]
name = "org_wiki"
version = "0.1.0"
edition = "2021"
publish = false

[dependencies]
orgize = "=0.10.0-alpha.10"
hmac = "=0.12.1"
sha2 = "=0.10.9"
hex = "=0.4.3"
tokio-listener = { version = "=0.5.2", features = ["axum08"] }
serde = { version = "=1.0.229", features = ["derive"] }
serde_json = "=1.0.154"
toml = "=1.1.8"
clap = { version = "=4.6.7", features = ["derive", "env"] }
thiserror = "=2.0.21"
tracing = "=0.1.44"
git2 = { version = "=0.21.0", default-features = false }
axum = "=0.8.9"
tokio = { version = "=1.54.1", features = ["full"] }
tower = "=0.5.3"
tower-http = { version = "=0.7.1", features = ["fs", "trace", "set-header"] }
tower-sessions = "=0.15.0"
tera = { version = "=1.20.1", default-features = false }
prometheus = { version = "=0.14.0", default-features = false }
aide = { version = "=0.15.1", features = ["axum", "axum-json", "scalar"] }
schemars = "=0.9.0"
openidconnect = "=3.5.0"
tempfile = "=3.27.0"
