[package]
name = "hemlib"
version = "0.1.0"
edition = "2021"
publish = false

[dependencies]
ansi_term = "0.12"
chrono = "0.4"
dialoguer = "*"
dirs = "*"
feed-rs = "*"
futures = "0.3"
serde = { version = "1", features = ["derive"] }
serde_json = "1"
structopt = "0.3"
tokio = { version = "1", features = ["macros", "rt-multi-thread"] }

[dependencies.reqwest]
version = "*"
default-features = false
