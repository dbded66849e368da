[package]
name = "habit_slot"
version = "0.1.0"
edition = "2021"
publish = false

[dependencies]
rand = "0.8"
uuid = { version = "1", features = ["v4"] }
chrono = "0.4"
rusqlite = { version = "0.31", features = ["bundled"] }
tokio = { version = "1", features = ["time", "rt"] }
dioxus = "0.6"
