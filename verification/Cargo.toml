[package]
name = "sound_player"
version = "0.1.0"
edition = "2021"
publish = false

[dependencies]
anyhow = "1"
iocraft = "*"
rodio = "*"
rusqlite = { version = "*", features = ["bundled"] }
rustfft = "6"
serde = { version = "1", features = ["derive"] }
serde_json = "1"
smol = "2"
unicode-segmentation = "1"
