[package]
name = "pointer_session"
version = "0.1.0"
edition = "2021"
publish = false

[dependencies]
actix = "*"
actix-rt = "*"
actix-web = "*"
actix-web-actors = "*"
dotenv = "*"
env_logger = "*"
