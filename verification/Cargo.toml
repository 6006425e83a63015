[package]
name = "tasklet"
version = "0.5.0"
edition = "2021"
publish = false

[dependencies]
chrono = { version = "=0.4.45", features = ["serde"] }
cron = "=0.15.0"
fastrand = "=2.5.0"
log = "=0.4.35"
serde = { version = "=1.0.229", features = ["derive"] }
thiserror = "=2.0.21"
tokio = { version = "=1.54.1", features = ["macros", "rt", "rt-multi-thread", "sync", "time", "signal"] }

[dev-dependencies]
serde_json = "=1.0.154"
