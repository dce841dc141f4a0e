[package]
name = "polygon_csv"
version = "0.1.0"
edition = "2021"
publish = false

[dependencies]
time = "0.3"
serde = { version = "1", features = ["derive"] }
reqwest = { version = "0.12", default-features = false, features = ["json", "rustls-tls"] }
tokio = { version = "1", features = ["rt-multi-thread", "macros"] }
dotenv = "0.15"
