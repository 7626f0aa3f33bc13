[package]
name = "game_rooms"
version = "0.1.0"
edition = "2021"
publish = false

[dependencies]
rand = "=0.8.8"
uuid = { version = "=1.27.0", features = ["v4"] }
serde = { version = "=1.0.229", features = ["derive"] }
serde_json = "=1.0.151"
actix = "=0.13.5"
actix-web = { version = "=4.15.0", features = ["macros"] }
actix-web-actors = "=4.3.1"
actix-files = "=0.6.10"
env_logger = "=0.11.11"
log = "=0.4.34"
structopt = "=0.3.26"
