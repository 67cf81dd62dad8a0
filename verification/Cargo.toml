[package]
name = "ajet_catalog"
version = "0.1.0"
edition = "2021"
publish = false

[dependencies]
actix-files = "*"
actix-multipart = "*"
actix-session = { version = "*", features = ["cookie-session"] }
actix-web = "*"
bcrypt = "*"
chrono = "*"
dotenv = "*"
env_logger = "*"
futures = "*"
log = "*"
regex = "*"
rusqlite = { version = "*", features = ["bundled"] }
serde = { version = "*", features = ["derive"] }
serde_json = "*"
uuid = { version = "*", features = ["v4"] }
