[package]
name = "rdf_editor"
version = "0.1.0"
edition = "2021"
publish = false

[dependencies]
chrono = "0.4"
uuid = { version = "1", features = ["v4"] }
base64 = "0.22"
sha2 = "0.10"
url = "2"
serde_json = "1"
urlencoding = "2"
dotenv = "0.15"
reqwest = { version = "0.12", default-features = false, features = ["blocking", "json"] }
