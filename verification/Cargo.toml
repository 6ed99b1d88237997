[package]
name = "revolt_core"
version = "0.1.0"
edition = "2021"
publish = false

[dependencies]
base64 = "=0.22.1"
chrono = { version = "=0.4.45", default-features = false, features = ["std"] }
chrono-tz = "=0.10.4"
ed25519-dalek = { version = "=2.2.0", features = ["rand_core"] }
hmac = "=0.12.1"
sha2 = "=0.10.9"
subtle = "=2.6.1"
rand = "=0.8.8"
regex = "=1.13.1"
ulid = "=1.2.1"
iso8601-timestamp = "=0.4.0"
serde = { version = "=1.0.229", features = ["derive"] }
serde_json = "=1.0.154"
unicode-segmentation = "=1.13.3"
log = "=0.4.35"
pretty_env_logger = "=0.5.0"
async-trait = "=0.1.92"
tokio = { version = "=1.54.1", features = ["net", "rt-multi-thread", "macros", "time", "sync"] }
futures = "=0.3.34"
futures-locks = "=0.7.1"
once_cell = "=1.21.4"
cached = { version = "=0.44.0", default-features = false, features = ["proc_macro", "async"] }
mongodb = { version = "=3.9.1", default-features = false, features = ["compat-3-3-0", "bson-2", "rustls-tls"] }
bson = "=2.15.0"
redis-kiss = "=0.1.4"
sentry = { version = "=0.31.8", default-features = false }
sentry-anyhow = { version = "=0.31.8", default-features = false }
config = { version = "=0.13.4", default-features = false, features = ["toml"] }
