//! Push-to-talk dictation: the decisions behind the pill.
//!
//! Everything here is plain data in, plain data out. The microphone, the
//! socket, the window, the tray and the clipboard live with the caller, who
//! performs what these functions decide and hands back what happened.

pub mod text;
pub mod audio;
pub mod json;
pub mod transcribe;
pub mod hotkey;
pub mod config;
pub mod output;
pub mod instance;
pub mod cli;
pub mod ui;
pub mod tray;
pub mod session;
pub mod utterance;
