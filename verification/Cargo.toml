[package]
name = "krb5proxy"
version = "0.1.5"
edition = "2021"
publish = false

[dependencies]
base64 = "0.22"
http = "1"
hyper = { version = "1", features = ["full"] }
hyper-util = { version = "0.1", features = ["full"] }
http-body-util = "0.1"
bytes = "1"
tokio = { version = "1", features = ["full"] }
clap = { version = "3.2", features = ["derive"] }
libgssapi = "*"
