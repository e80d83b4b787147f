[package]
name = "pg_actions"
version = "1.5.0"
edition = "2021"
publish = false

[dependencies]
rand = "0.9"
nucleo-matcher = "0.3"
csv = "1"
clap = { version = "4", features = ["derive", "env"] }
clap_complete = "4"
chrono = "0.4"
deadpool-postgres = "0.14"
tokio-postgres = "0.7"
native-tls = "0.2"
postgres-native-tls = "0.5"
prettytable-rs = "0.10"
rusoto_core = "0.48"
rusoto_s3 = "0.48"
rusoto_credential = "0.48"
serde = { version = "1", features = ["derive"] }
serde_json = "1"
tar = "0.4"
xz2 = "0.1"
walkdir = "2"
thiserror = "2"
tokio = { version = "1", features = ["full"] }
env_logger = "0.11"
log = "0.4"
rpassword = "7"
dirs = "6"
dirs-next = "2"
