[package]
name = "metrics_sidecar"
version = "0.1.0"
edition = "2021"
publish = false

[dependencies]
bollard = "=0.21.1"
dotenv = "=0.15.0"
env_logger = "=0.11.11"
futures-util = "=0.3.34"
log = "=0.4.34"
tokio = { version = "=1.53.2", features = ["macros", "rt-multi-thread"] }
warp = { version = "=0.4.3", features = ["server"] }
