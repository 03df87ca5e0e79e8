[package]
name = "searxkcd"
version = "0.1.0"
edition = "2021"
publish = false

[dependencies]
dirs = "*"
reqwest = "*"
sdl2 = { version = "*", features = ["image", "ttf"] }
serde = { version = "1", features = ["derive"] }
serde_json = "1"
tokio = { version = "1", features = ["macros", "rt-multi-thread"] }
