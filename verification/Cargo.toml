[package]
name = "lancedb"
version = "0.1.0"
edition = "2021"
publish = false

[dependencies]
opentelemetry = "*"
tracing = "*"
arrow = { version = "*", default-features = false }
arrow-array = "*"
arrow-schema = "*"
object_store = { version = "*", default-features = false }
async-trait = "*"
futures = "*"
bytes = "*"
tracing-subscriber = { version = "*", features = ["fmt", "json", "env-filter", "registry"] }
opentelemetry_sdk = "*"
opentelemetry-otlp = { version = "*", features = ["http-proto", "grpc-tonic", "trace", "metrics", "logs"] }
tracing-opentelemetry = "*"
opentelemetry-appender-tracing = "*"
napi = "*"
napi-derive = "*"
tempfile = "*"
anyhow = "*"
snafu = "*"
