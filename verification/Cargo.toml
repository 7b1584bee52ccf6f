[package]
name = "burn_gradient_demo_app"
version = "0.1.0"
edition = "2021"
publish = false

[dependencies]
serde_json = "1"
tokio = { version = "1", features = ["rt-multi-thread", "macros", "sync", "time", "net"] }
ractor = "0.15"
axum = "0.7"
tower-http = { version = "0.6", features = ["cors"] }
image = { version = "0.25", default-features = false, features = ["png", "jpeg"] }
