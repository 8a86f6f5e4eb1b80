[package]
name = "p2term_core"
version = "0.1.0"
edition = "2021"
publish = false

[dependencies]
anyhow = "=1.0.104"
clap = { version = "=4.6.7", default-features = false, features = ["derive", "std", "help", "usage", "env"] }
hex = "=0.4.3"
iroh = "=1.3.0"
iroh-base = "=1.3.0"
portable-pty = "=0.9.0"
postcard = { version = "=1.1.3", features = ["alloc"] }
rand_chacha = "=0.9.0"
rand_core = { version = "=0.9.5", features = ["os_rng"] }
serde = { version = "=1.0.229", features = ["derive"] }
termion = "=4.0.6"
tokio = { version = "=1.53.2", default-features = false, features = ["rt-multi-thread", "macros", "sync", "time", "signal", "io-util"] }
toml = "=1.1.6"
