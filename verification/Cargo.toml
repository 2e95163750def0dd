[package]
name = "daily_standup"
version = "0.1.0"
edition = "2021"
publish = false

[dependencies]
chrono = "=0.4.45"
anyhow = "=1.0.104"
serde = { version = "=1.0.229", features = ["derive"] }
serde_json = "=1.0.154"
worker = { version = "=0.8.7", features = ["d1"] }
reqwest = { version = "=0.13.5", features = ["json"] }
tokio = { version = "=1.54.1", features = ["full"] }
dotenv = "=0.15.0"
futures = "=0.3.34"
async-openai = { version = "=0.42.2", features = ["chat-completion"] }
js-sys = "=0.3.106"
wasm-bindgen = "=0.2.129"
console_error_panic_hook = "=0.1.7"
