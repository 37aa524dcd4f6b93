[package]
name = "sillok"
version = "0.1.0"
edition = "2021"
publish = false

[dependencies]
uuid = { version = "1", features = ["v7"] }
chrono = "0.4"
chrono-tz = "0.10"
zstd = "0.13"
bitcode = "0.6"
clap = { version = "4", features = ["derive", "env"] }
serde = { version = "1", features = ["derive"] }
serde_json = "1"
tokio = { version = "1", features = ["rt"] }
tracing = "0.1"
tracing-subscriber = "0.3"
turso = "*"
directories = "*"
fs2 = "0.4"
nutype = { version = "0.6", features = ["serde"] }
