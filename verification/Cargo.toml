[package]
name = "ratls"
version = "0.1.0"
edition = "2021"
publish = false

[dependencies]
sha2 = "*"
rcgen = { version = "*", features = ["x509-parser"] }
x509-parser = "*"
ed25519-dalek = "*"
anyhow = "*"
clap = { version = "*", features = ["derive"] }
tokio = { version = "*", features = ["macros", "rt-multi-thread"] }
reqwest = { version = "*", default-features = false, features = ["rustls-tls"] }
