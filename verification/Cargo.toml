[package]
name = "voidctl"
version = "0.1.0"
edition = "2021"
publish = false

[dependencies]
anyhow = "1"
clap = { version = "4", features = ["derive"] }
clap_complete = "4"
colored = "2"
globset = "0.4"
humansize = "2"
ignore = "0.4"
inquire = "0.7"
libc = "0.2"
serde = { version = "1", features = ["derive"] }
thiserror = "2"
toml = "0.8"
tracing-subscriber = { version = "0.3", features = ["env-filter"] }

[dev-dependencies]
tempfile = "3"
