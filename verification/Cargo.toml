[package]
name = "arena_of_ideas"
version = "0.1.0"
edition = "2021"
publish = false

[dependencies]
anyhow = "1"
convert_case = "0.6"
rand = "0.8"
ron = "0.8"
serde = { version = "1", features = ["derive"] }
serde_json = "1"
strfmt = "0.2"
