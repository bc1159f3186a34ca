[package]
name = "qti_lib"
version = "0.1.0"
edition = "2021"
publish = false

[dependencies]
xmltree = "*"
uuid = { version = "*", features = ["v4"] }
zip = "*"
clap = { version = "*", features = ["derive"] }
serde = { version = "*", features = ["derive"] }
serde_json = "*"
thiserror = "*"
