[package]
name = "chatroom"
version = "0.1.0"
edition = "2021"
publish = false

[dependencies]
rand = "=0.8.8"
actix = "=0.13.5"
actix-web = { version = "=4.18.1", default-features = false, features = ["macros", "ws"] }
actix-web-actors = "=4.3.1"
actix-files = "=0.6.10"
handlebars = "=4.5.0"
serde = { version = "=1.0.229", features = ["derive"] }
serde_json = "=1.0.154"
