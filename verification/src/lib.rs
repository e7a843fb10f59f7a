//! Core logic of the DeskLink host daemon: the binary wire protocol spoken
//! with the Android client, the multi-touch slot tracker that turns touch
//! packets into Linux input events, H.264 Annex-B framing, and the small
//! decision procedures of the compositor, ADB and streaming front ends.
pub mod wire;
pub mod clock;
pub mod protocol;
pub mod touch;
pub mod nalu;
pub mod text;
pub mod command;
pub mod compositor;
pub mod adb;
pub mod streamer;
pub mod server;
