[package]
name = "luma"
version = "0.2.0"
edition = "2021"

[dependencies]
hashbrown = "*"
serde = { version = "1", features = ["derive"] }
bincode = "1"
thiserror = "1"
