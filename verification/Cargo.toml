[package]
name = "inv-sys"
version = "1.3.0"
edition = "2021"
publish = false

[dependencies]
serde = { version = "1", features = ["derive"] }

[dev-dependencies]
uuid = { version = "1", features = ["v4"] }
