[package]
name = "modpacker"
version = "0.1.0"
edition = "2021"
publish = false

[dependencies]
ignore = "*"
clap = { version = "*", features = ["derive"] }
serde = { version = "*", features = ["derive"] }
serde_json = "*"
thiserror = "*"
remove_empty_subdirs = "*"
