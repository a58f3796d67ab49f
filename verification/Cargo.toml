[package]
name = "asteria"
version = "0.1.0"
edition = "2021"
publish = false

[dependencies]
anyhow = "=1.0.104"
async-trait = "=0.1.92"
tokio = { version = "=1.54.1", features = ["rt", "macros", "time", "signal", "sync"] }
shell-words = "=1.1.1"
rustyline = "=19.0.0"
terminal_size = "=0.4.4"
serde = { version = "=1.0.229", features = ["derive"] }
postcard = { version = "=1.1.3", features = ["use-std"] }
heapless = { version = "=0.8.0", features = ["serde"] }
embassy-time = { version = "=0.5.1", features = ["std"] }
embassy-sync = "=0.8.0"
embedded-io-async = "=0.6.1"
embedded-hal = "=1.0.0"
embedded-hal-async = "=1.0.0"
device-driver = "=1.0.9"
libm = "=0.2.16"
micromath = "=2.1.0"
thiserror = "=2.0.21"
syn = { version = "=2.0.119", features = ["full", "extra-traits"] }
quote = "=1.0.47"
proc-macro2 = "=1.0.107"
darling = "=0.21.3"
