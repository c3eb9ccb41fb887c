//! The verified core of a local voice assistant: the engine protocol, the
//! service clients' decisions, audio configuration and encoding, and the
//! chat window's state machine.

pub mod text;
pub mod json;
pub mod chat;
pub mod engine;
pub mod ai;
pub mod codec;
pub mod stt;
pub mod audio;
pub mod tts;
pub mod ui;
