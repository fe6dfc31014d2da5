[package]
name = "discord_voice"
version = "0.1.0"
edition = "2021"
publish = false

[dependencies]
byteorder = "=1.5.0"
cpal = "0.13"
futures-util = { version = "0.3", features = ["sink"] }
iced = { version = "0.7", default-features = false, features = ["glow", "tokio"] }
# Not called: holds `url` to the Unicode tables of the unicode-rs crates.
idna_adapter = "=1.1.0"
opus = "0.3"
ringbuf = "=0.3.3"
serde_json = "=1.0.154"
tokio = { version = "1", features = ["macros", "net", "rt-multi-thread", "sync", "time"] }
tokio-tungstenite = { version = "=0.18.0", features = ["rustls-tls-webpki-roots"] }
tracing = "0.1"
tracing-subscriber = { version = "0.3", default-features = false, features = ["fmt"] }
url = "=2.5.8"
xsalsa20poly1305 = "=0.9.1"
