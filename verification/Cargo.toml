[package]
name = "celeste"
version = "0.1.0"
edition = "2021"
publish = false

[dependencies]
serde = { version = "1", features = ["derive"] }
serde_json = "1"
time = { version = "0.3", features = ["serde", "parsing", "formatting", "serde-well-known"] }
librclone = "*"
ksni = "0.2"
libadwaita = "0.4"
sea-orm = { version = "0.11", default-features = false, features = ["macros"] }
tr = "0.1"
