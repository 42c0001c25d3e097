[package]
name = "gbfr_logs"
version = "0.1.0"
edition = "2021"
publish = false

[dependencies]
anyhow = "=1.0.104"
cbor4ii = { version = "=0.3.3", features = ["serde1", "use_std"] }
chrono = "=0.4.45"
log = "=0.4.35"
retour = { version = "=0.3.1", features = ["static-detour"] }
rusqlite = "=0.31.0"
serde = { version = "=1.0.229", features = ["derive"] }
serde_json = "=1.0.154"
windows = { version = "=0.52.0", features = ["Win32_Foundation", "Win32_System_Diagnostics_Debug"] }
zstd = "=0.13.4"
