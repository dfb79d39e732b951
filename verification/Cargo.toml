[package]
name = "scraper"
version = "0.1.0"
edition = "2021"
publish = false

[dependencies]
regex = "=1.13.1"
serde = { version = "=1.0.229", features = ["derive"] }
serde_json = "=1.0.154"
tera = "=1.20.1"
reqwest = { version = "=0.12.28", default-features = false, features = ["rustls-tls"] }
fantoccini = { version = "=0.22.1", default-features = false, features = ["rustls-tls"] }
tokio = { version = "=1.54.1", features = ["macros", "rt-multi-thread"] }
tempfile = "=3.27.0"
uuid = { version = "=1.29.1", features = ["v4", "serde"] }
lazy_static = "=1.5.1"
dotenv = "=0.15.0"
diesel = { version = "=2.3.14", features = ["postgres", "uuid"] }
