[package]
name = "session_auth"
version = "0.1.0"
edition = "2021"
publish = false

[dependencies]
hmac = "=0.12.1"
sha2 = "=0.10.9"
argon2 = "=0.5.3"
rand = "=0.8.8"
time = { version = "=0.3.55", features = ["formatting", "parsing"] }
ulid = "=1.2.1"
validator = { version = "=0.20.0", features = ["derive"] }
cookie = "=0.18.2"
serde = { version = "=1.0.229", features = ["derive"] }
serde_json = "=1.0.154"
thiserror = "=2.0.21"
anyhow = "=1.0.104"
tracing = "=0.1.44"
async-trait = "=0.1.92"
tokio = { version = "=1.54.1", default-features = false, features = ["macros", "rt-multi-thread", "signal"] }
salvo = { version = "=0.83.0", default-features = false, features = ["oapi", "cookie", "server", "server-handle", "http1", "rustls", "cors"] }
sea-orm = { version = "=1.1.20", default-features = false, features = ["sqlx-postgres", "runtime-tokio", "macros", "with-time"] }
sea-orm-migration = { version = "=1.1.20", default-features = false, features = ["sqlx-postgres", "runtime-tokio"] }
rinja = "=0.3.5"
