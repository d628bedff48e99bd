[package]
name = "nearby"
version = "0.1.0"
edition = "2021"
publish = false

[dependencies]
actix = "=0.10.0"
actix-web = "=3.3.3"
bson = "=1.2.4"
chrono = { version = "=0.4.45", features = ["serde"] }
futures = "=0.3.34"
mongodb = "=1.2.5"
serde = { version = "=1.0.229", features = ["derive"] }
