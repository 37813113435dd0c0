[package]
name = "noir"
version = "0.1.0"
edition = "2021"
publish = false

[dependencies]
actix-cors = "=0.7.2"
actix-files = "=0.7.2"
actix-web = { version = "=4.18.1", default-features = false, features = ["macros"] }
app_dirs = "=1.2.1"
chrono = "=0.4.45"
clap = "=2.34.0"
curl = { version = "=0.4.51", default-features = false, features = ["static-curl"] }
dhash = "=0.1.0"
env_logger = "=0.5.13"
image = "=0.21.3"
image-meta = "=0.1.4"
indicatif = "=0.18.6"
jackdauer = "=0.1.2"
log = "=0.4.34"
rusqlite = { version = "=0.40.2", features = ["bundled", "chrono", "functions"] }
serde = { version = "=1.0.229", features = ["derive"] }
serde_json = "=1.0.154"
serde_yaml = "=0.9.34"
shell-escape = "=0.1.5"
walkdir = "=2.5.0"
wildmatch = "=2.7.0"
