[package]
name = "tunnel-server"
version = "0.1.0"
edition = "2021"
publish = false

[dependencies]
anyhow = "1"
arc-swap = "=1.9.3"
argon2 = "0.5"
async-trait = "0.1"
axum = { version = "=0.7.9", features = ["ws"] }
clap = { version = "4", features = ["derive"] }
dashmap = "=6.2.1"
httparse = "=1.10.1"
quinn = { version = "=0.11.12", default-features = false, features = ["runtime-tokio", "rustls-ring", "log"] }
rcgen = { version = "=0.13.2", default-features = false, features = ["pem", "ring"] }
rustls = { version = "=0.23.46", default-features = false, features = ["ring", "std", "logging", "tls12"] }
rustls-pemfile = "=2.2.0"
serde = { version = "1", features = ["derive"] }
serde_json = "1"
sha2 = "0.10"
thiserror = "1"
time = { version = "=0.3.55", features = ["formatting", "parsing"] }
tokio = { version = "1", features = ["rt-multi-thread", "macros", "net", "io-util", "sync", "time", "signal"] }
tokio-rustls = { version = "0.26", default-features = false, features = ["ring", "logging", "tls12"] }
toml = "0.8"
tower-http = { version = "=0.6.11", features = ["fs", "set-status"] }
tracing = "0.1"
utoipa = "=5.5.0"
utoipa-swagger-ui = { version = "=8.1.0", features = ["axum", "vendored"] }
uuid = { version = "=1.29.0", features = ["v4"] }
x509-parser = "=0.16.0"

# Holds the version that the build script of utoipa-swagger-ui compiles with.
[dev-dependencies]
zip = { version = "~2.2", default-features = false, features = ["deflate"] }
