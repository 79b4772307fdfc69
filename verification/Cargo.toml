[package]
name = "anubis_solver"
version = "0.1.0"
edition = "2021"
publish = false

[dependencies]
sha2 = "*"
hex = "*"
rayon = "*"
dashmap = "*"
reqwest = { version = "*", default-features = false, features = ["cookies"] }
tokio = { version = "*", features = ["full"] }
hyper = { version = "*", features = ["full"] }
hyper-util = { version = "*", features = ["full"] }
http-body-util = "*"
bytes = "*"
clap = { version = "*", features = ["derive"] }
fake_user_agent = "*"
