[package]
name = "tinyurl-rs"
version = "0.1.0"
edition = "2021"
publish = false

[dependencies]
actix-web = "=4.18.1"
chrono = { version = "=0.4.45", features = ["serde"] }
dashmap = "=5.5.3"
dotenv = "=0.15.0"
env_logger = "=0.10.2"
log = "=0.4.34"
num_cpus = "=1.17.0"
rand = "=0.8.8"
redis = "=0.24.1"
serde = { version = "=1.0.229", features = ["derive"] }
serde_json = "=1.0.154"
sha2 = "=0.10.9"
sqlx = { version = "=0.8.6", default-features = false, features = ["runtime-tokio", "postgres", "chrono", "derive"] }
thiserror = "=1.0.69"
tokio = { version = "=1.54.1", features = ["rt-multi-thread", "macros"] }
url = "=2.5.8"
utoipa = { version = "=4.2.3", features = ["actix_extras", "chrono"] }
utoipa-swagger-ui = { version = "=6.0.0", features = ["actix-web"] }
