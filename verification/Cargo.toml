[package]
name = "financial_importer"
version = "0.1.0"
edition = "2021"
publish = false

[dependencies]
chrono = { version = "0.4", features = ["serde"] }
color-eyre = "0.5"
csv = "1"
eyre = "0.6"
futures = "0.3"
log = "0.4"
platform-dirs = "0.3"
pretty_env_logger = "0.4"
regex = "1"
serde = { version = "1", features = ["derive"] }
structopt = "0.3"
tokio = { version = "1", features = ["macros", "rt-multi-thread"] }
toml = "0.5"
voca_rs = "1"
yahoo_finance_api = "1"

[dev-dependencies]
format_num = "0.1"
