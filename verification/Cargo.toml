[package]
name = "audio_analysis_tool"
version = "0.1.0"
edition = "2021"
publish = false

[dependencies]
audrey = "0.3"
base64 = "0.21"
jni = "0.19"
rustfft = "6"
serde = { version = "1", features = ["derive"] }
serde_json = "1"
