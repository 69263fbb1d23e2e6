[package]
name = "dia_batching_server"
version = "0.1.0"
edition = "2021"
publish = false

[dependencies]
actix-web = "4"
arc-swap = "1"
async-trait = "0.1"
chrono = { version = "0.4", features = ["serde"] }
log = "0.4"
pretty_env_logger = "0.5"
reqwest = { version = "0.12", features = ["json"] }
rust_decimal = { version = "1", features = ["serde"] }
serde = { version = "1", features = ["derive"] }
serde_json = "1"
smol_str = { version = "0.2", features = ["serde"] }
structopt = "0.3"
tokio = { version = "1", features = ["macros", "rt-multi-thread", "time"] }
