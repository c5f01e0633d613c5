[package]
name = "mealbot"
version = "0.1.0"
edition = "2021"
publish = false

[dependencies]
nanoid = "=0.5.0"
fuzzy-matcher = "=0.3.7"
log = "*"
serde = { version = "*", features = ["derive"] }
serde_json = "*"
pickledb = "*"
parking_lot = "*"
chrono = "*"
teloxide = { version = "*", default-features = false }
takecell = "=0.1.1"
tokio = { version = "*", features = ["macros", "rt-multi-thread"] }
