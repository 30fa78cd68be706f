[package]
name = "stackchan"
version = "0.1.0"
edition = "2021"
publish = false

[dependencies]
anyhow = "1"
cpal = "0.15"
embedded-graphics = "0.8"
embedded-graphics-simulator = "0.6"
env_logger = "0.11"
framebuffer = "0.3"
hound = "3.5"
log = "0.4"
nnnoiseless = { version = "0.5", default-features = false }
openai-api-rs = "~5.0"
rodio = "0.19"
tokio = { version = "1", features = ["full"] }
webrtc-vad = "0.4"
