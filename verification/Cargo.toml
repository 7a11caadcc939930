[package]
name = "firework_lang"
version = "0.1.0"
edition = "2021"
publish = false

[dependencies]
clap = "2"
colored = "2"
home = "0.5"
reqwest = { version = "0.11", default-features = false, features = ["blocking"] }
rustyline = "9"
serde = { version = "1", features = ["derive"] }
serde_json = "1"
strsim = "0.10"
