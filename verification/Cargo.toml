[package]
name = "portfolio_tracker"
version = "0.1.0"
edition = "2021"
publish = false

[dependencies]
actix-cors = "0.6"
actix-service = "2"
actix-web = "4"
base64 = "0.13"
chrono = { version = "0.4", features = ["serde"] }
diesel = { version = "1.4", features = ["postgres", "r2d2", "chrono"] }
dotenv = "0.15"
futures = "0.3"
jsonwebtoken = "8"
pwhash = "1"
r2d2 = "0.8"
regex = "1"
serde = { version = "1", features = ["derive"] }
serde_json = { version = "1", features = ["preserve_order"] }
uuid = { version = "1", features = ["v4"] }
validator = { version = "0.16", features = ["derive"] }
yahoo_finance_api = "1"
