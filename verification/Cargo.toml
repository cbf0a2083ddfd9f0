[package]
name = "rwinreg"
version = "0.1.0"
edition = "2021"
publish = false

[dependencies]
encoding = "*"
winstructs = "*"
serde = { version = "*", features = ["derive"] }
serde_json = "*"
