[package]
name = "kraftverk"
version = "0.2.0"
edition = "2021"
publish = false

[dependencies]
sha2 = "0.10"
hex = "0.4"
serde = { version = "1", features = ["derive"] }
serde_json = "1"
chrono = { version = "0.4", features = ["serde"] }
uuid = { version = "1", features = ["v4", "serde"] }
sysinfo = "0.32"
rusqlite = { version = "0.32", features = ["bundled"] }
directories = "5"
rand = "0.8"
rand_chacha = "0.3"
indexmap = { version = "2", features = ["serde"] }
parking_lot = "0.12"
tracing = "0.1"
tracing-subscriber = { version = "0.3", features = ["env-filter"] }
libc = "0.2"
thiserror = "1"
axum = "0.7"
tokio = { version = "1", features = ["rt-multi-thread", "macros", "net"] }
tower-http = { version = "0.5", features = ["cors", "fs"] }
open = "5"
windows-sys = { version = "0.52", features = ["Win32_Foundation", "Win32_System_Registry", "Win32_System_Threading"] }
