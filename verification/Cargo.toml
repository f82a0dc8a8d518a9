[package]
name = "termviz"
version = "0.1.0"
edition = "2021"
publish = false

[dependencies]
axum = "0.8"
crossterm = "0.28"
dialoguer = "0.11"
serde = { version = "1", features = ["derive"] }
tokio = { version = "1", features = ["rt-multi-thread", "macros", "net"] }
