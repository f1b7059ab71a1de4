//! Push-to-talk voice bridge: the ASR wire protocol, audio framing, credential
//! and option rules, the text preview and the bridge's per-utterance decisions.
pub mod text;
pub mod json;
pub mod protocol;
pub mod mai;
pub mod config;
pub mod bridge_core;
pub mod asr;
pub mod audio;
pub mod preview;
pub mod platform;
