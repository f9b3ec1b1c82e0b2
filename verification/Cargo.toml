[package]
name = "subwin"
version = "0.1.0"
edition = "2021"
publish = false

[dependencies]
rubato = "0.16"
ringbuf-blocking = "0.1.0-rc.5"
whisper-rs = "0.15"
num-traits = "0.2"
cpal = "0.17"
tokio = { version = "1", features = ["full"] }
reqwest = { version = "0.12", default-features = false, features = ["stream", "rustls-tls"] }
futures-util = "0.3"
toml = "0.9"
serde = { version = "1", features = ["derive"] }
directories = "6"
thiserror = "2"
log = "0.4"
simple_logger = "5"
num_cpus = "1"
