[package]
name = "mcp-caldav"
version = "0.1.0"
edition = "2021"
publish = false

[dependencies]
chrono = "0.4"
chrono-tz = "0.10"
icalendar = "*"
rrule = "*"
regex = "1"
quick-xml = { version = "*", features = ["serialize"] }
serde = { version = "1", features = ["derive"] }
serde_json = "1"
reqwest = { version = "*", default-features = false }
rmcp = { version = "*", features = ["server", "transport-io", "macros"] }
moka = { version = "*", features = ["future"] }
tokio = { version = "1", features = ["macros", "rt-multi-thread", "io-std"] }
toml = "*"
tracing = "0.1"
tracing-subscriber = { version = "0.3", features = ["env-filter", "fmt"] }
thiserror = "*"
anyhow = "1"
