[package]
name = "hoyo_gacha"
version = "0.1.0"
edition = "2021"
publish = false

[dependencies]
time = { version = "0.3", features = ["parsing", "formatting", "macros", "serde"] }
serde = { version = "1", features = ["derive"] }
serde_json = "1"
snafu = "0.8"
thiserror = "2"
tokio = { version = "1", features = ["sync", "rt", "macros"] }
tracing = "0.1"
async-trait = "0.1"
paste = "1"
sqlx = { version = "0.8", default-features = false, features = ["sqlite", "runtime-tokio", "time"] }
