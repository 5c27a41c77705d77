[package]
name = "rs_cel_repl"
version = "0.1.0"
edition = "2021"
publish = false

[dependencies]
cel = "*"
clap = { version = "*", features = ["derive"] }
rustyline = "*"
serde_json = "*"
