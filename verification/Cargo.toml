[package]
name = "fabsebot"
version = "0.1.0"
edition = "2021"
publish = false

[dependencies]
urlencoding = "=2.1.3"
base64 = "=0.22.1"
serde = { version = "=1.0.229", features = ["derive"] }
serde_json = "=1.0.154"
toml = "=1.1.8"
tokio = { version = "=1.54.1", features = ["full"] }
reqwest = { version = "=0.12.28", default-features = false, features = ["json", "rustls-tls"] }
serenity = "=0.12.5"
poise = "=0.6.2"
sqlx = { version = "=0.8.6", default-features = false, features = ["postgres", "runtime-tokio"] }
image = { version = "=0.25.10", default-features = false, features = ["gif", "webp", "png", "jpeg"] }
imageproc = { version = "=0.25.1", default-features = false }
ab_glyph = "=0.2.32"
textwrap = "=0.16.4"
tracing = "=0.1.44"
tracing-subscriber = "=0.3.23"
mini-moka = "=0.10.3"
fastrand = "=2.5.0"
anyhow = "=1.0.104"
bytes = "=1.12.1"
url = "=2.5.8"
scraper = "=0.29.0"
