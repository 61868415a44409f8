[package]
name = "meeting_indexer"
version = "0.1.0"
edition = "2021"
publish = false

[dependencies]
rusqlite = "=0.40.2"
serde_json = "=1.0.151"
select = "=0.6.1"
chrono = "=0.4.45"
serde = { version = "=1.0.229", features = ["derive"] }
reqwest = { version = "=0.13.5", features = ["json", "form"] }
tokio = { version = "=1.53.2", features = ["macros", "rt-multi-thread", "sync", "time"] }
actix-web = "=4.15.0"
actix-cors = "=0.7.2"
clap = { version = "=4.6.7", features = ["derive"] }
futures-util = "=0.3.34"
