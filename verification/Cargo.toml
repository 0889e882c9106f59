[package]
name = "mixxx_midi_clock"
version = "0.1.0"
edition = "2021"
publish = false

[dependencies]
anyhow = "1"
clap = { version = "4", features = ["derive", "env"] }
crossbeam-channel = "0.5"
ctrlc = "3"
libc = "0.2"
midir = "0.10"
serde = { version = "1", features = ["derive"] }
serde_json = "1"
spin_sleep = "1"
tracing = "0.1"
tracing-subscriber = { version = "0.3", features = ["env-filter"] }
