//! Verified core of the live audio transcription client.
//!
//! The native core, the asynchronous runtime and the disk stay outside. The library
//! decides what is asked of them and what their answers amount to.
pub mod core_interop;
pub mod decimal;
pub mod error;
pub mod history;
pub mod json;
pub mod live_audio;
pub mod native_library;
pub mod pcm;
pub mod push_loop;
pub mod session;
pub mod streaming;
pub mod utf8;
