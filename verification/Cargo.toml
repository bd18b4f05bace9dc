[package]
name = "geotimezone"
version = "0.1.0"
edition = "2021"
publish = false

[dependencies]
actix-web = "4"
clap = { version = "4", features = ["derive"] }
diacritics = "=0.2.2"
dotenv = "*"
http-cache-reqwest = "=0.16.0"
mysql = "*"
reqwest = "0.12"
reqwest-middleware = "0.4"
serde = { version = "1", features = ["derive"] }
serde_json = "1"
string-patterns = "=0.4.0"
