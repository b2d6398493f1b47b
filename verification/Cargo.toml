[package]
name = "fplab_server"
version = "0.1.0"
edition = "2021"
publish = false

[dependencies]
actix-files = "=0.2.2"
actix-rt = "=1.1.1"
actix-session = "=0.3.0"
actix-web = "=2.0.0"
chrono = "=0.4.19"
env_logger = "=0.7.1"
execute = "=0.2.15"
handlebars = { version = "=3.5.5", features = ["dir_source"] }
rusqlite = { version = "=0.23.1", features = ["bundled"] }
serde = { version = "=1.0.229", features = ["derive"] }
sha2 = "=0.9.9"
uuid = { version = "=0.8.2", features = ["v4"] }
