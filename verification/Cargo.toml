[package]
name = "face_tracker"
version = "0.1.0"
edition = "2021"
publish = false

[dependencies]
anyhow = "1"
clap = { version = "4", features = ["derive"] }
opencv = "0.88"
thiserror = "1"
tokio = { version = "1", features = ["macros", "rt-multi-thread"] }
zenoh = { version = "0.11", default-features = false }
zenoh-config = "0.11"
