[package]
name = "novelnote"
version = "0.1.0"
edition = "2021"
publish = false

[dependencies]
axum = "*"
bytes = "1"
clap = { version = "4", features = ["derive", "env"] }
color-eyre = "0.6"
confique = { version = "*", features = ["toml"] }
directories = "*"
futures-util = "0.3"
interprocess = { version = "2", features = ["tokio"] }
jiff = { version = "0.2", features = ["serde"] }
leptos = { version = "*", features = ["csr"] }
nix = { version = "*", features = ["user"] }
rkyv = "0.8"
rusqlite = { version = "*", features = ["bundled", "backup"] }
serde = { version = "1", features = ["derive"] }
thiserror = "2"
tokio = { version = "1", features = ["fs", "io-util", "macros", "net", "rt-multi-thread", "signal", "sync", "time"] }
tokio-stream = "0.1"
tokio-util = { version = "0.7", features = ["codec", "rt", "time"] }
tower-http = { version = "*", features = ["timeout", "trace"] }
tracing = "0.1"
tracing-appender = "0.2"
tracing-error = "0.2"
tracing-journald = "0.3"
tracing-subscriber = { version = "0.3", features = ["env-filter"] }
utoipa = "*"
utoipa-axum = "*"
utoipa-redoc = { version = "*", features = ["axum"] }
