[package]
name = "archive_parser"
version = "0.1.0"
edition = "2021"
publish = false

[dependencies]
chrono = "0.4"
serde = { version = "1", features = ["derive"] }
serde_json = "1"
sea-query = { version = "0.28", features = ["backend-postgres", "with-chrono", "postgres-array", "derive"] }
sea-query-postgres = { version = "0.2", features = ["with-chrono", "postgres-array"] }
postgres = "0.19"
native-tls = "0.2"
postgres-native-tls = "0.5"
reqwest = { version = "0.11", features = ["blocking", "multipart", "json"] }
clap = { version = "4", features = ["derive"] }
