[package]
name = "mtls_echo"
version = "0.1.0"
edition = "2021"
publish = false

[dependencies]
x509-parser = { version = "=0.18.1", features = ["verify"] }
clap = { version = "=4.6.7", features = ["derive"] }
rustls = { version = "=0.23.45", default-features = false, features = ["ring", "std", "tls12", "logging"] }
rustls-pemfile = "=2.2.0"

[dev-dependencies]
rcgen = "=0.14.10"
