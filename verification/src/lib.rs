//! A voice client for Discord: the conversation with the gateway and with the
//! voice server, the audio packets, the queues between network and sound card,
//! and the window.
//!
//! The library decides and computes. Whoever uses it holds the connections and
//! the devices: it hands over what arrives and does what comes back.

pub mod audio_io;
pub mod bytes;
pub mod error;
pub mod gateway;
pub mod gateway_laws;
pub mod gui;
pub mod json;
pub mod payload;
pub mod ring;
pub mod rtp;
pub mod secretbox;
pub mod text;
pub mod voice;
pub mod voice_laws;
