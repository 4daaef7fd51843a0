[package]
name = "noiisseur"
version = "0.1.0"
edition = "2021"
publish = false

[dependencies]
anyhow = "1"
base64 = "0.13"
csrf = "0.4"
diesel = { version = "1.4", features = ["sqlite"] }
dirs = "*"
dotenv = "0.15"
form_urlencoded = "1"
hmac = "0.10"
rust-ini = "*"
reqwest = { version = "0.11", default-features = false, features = ["blocking"] }
ring = "0.16"
rocket = { version = "0.5", default-features = false }
serde = { version = "1", features = ["derive"] }
serde_json = "1"
sha2 = "0.9"
structopt = "0.3"
thiserror = "1"
webbrowser = "*"
