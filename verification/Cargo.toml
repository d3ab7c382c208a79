[package]
name = "navigator"
version = "0.1.0"
edition = "2021"
publish = false

[dependencies]
chrono = "0.4"
rust_decimal = "1"
sqlx = { version = "0.8", default-features = false, features = ["postgres", "runtime-tokio", "derive", "chrono", "rust_decimal"] }
actix-web = { version = "4", default-features = false, features = ["macros", "cookies"] }
actix-session = { version = "0.10", features = ["redis-session"] }
actix-cors = "0.7"
serde = { version = "1", features = ["derive"] }
serde_json = "1"
log = "0.4"
env_logger = { version = "0.11", default-features = false }
async-trait = "0.1"
thiserror = "1"
config = { version = "0.14", default-features = false, features = ["yaml"] }
