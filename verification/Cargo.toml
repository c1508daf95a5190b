[package]
name = "cargo_initializr"
version = "0.1.0"
edition = "2021"
publish = false

[dependencies]
cargo_toml = "=0.15.3"
toml = "=0.7.8"
version-compare = "=0.1.1"
cargo-toml-builder = "=0.3.0"
url-builder = "=0.1.1"
url = "=2.5.8"
serde = { version = "=1.0.229", features = ["derive"] }
actix-web = { version = "=4.18.1", default-features = false, features = ["macros"] }
actix-cors = "=0.6.5"
tracing = "=0.1.44"
tracing-actix-web = "=0.7.25"
tracing-subscriber = "=0.3.23"
dotenv = "=0.15.0"
walkdir = "=2.5.0"
zip = { version = "=7.4.0", default-features = false, features = ["deflate"] }
chrono = { version = "=0.4.45", default-features = false, features = ["clock"] }
futures = "=0.3.34"
thiserror = "=1.0.69"
filepath = "=0.1.3"
log = "=0.4.35"
