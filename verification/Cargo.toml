[package]
name = "overlad"
version = "0.1.0"
edition = "2021"
publish = false

[dependencies]
hex = "0.4"
ab_glyph = "0.2"
image = { version = "0.25", default-features = false, features = ["png"] }
axum = "0.8"
tokio = { version = "1", features = ["rt-multi-thread", "macros", "net"] }
clap = { version = "4", features = ["derive"] }
serde = { version = "1", features = ["derive"] }
