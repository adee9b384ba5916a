//! Core of a line-oriented chat client: an append-only conversation
//! transcript, the quit-sentinel test, input trimming, the JSON encoding of a
//! request body, and the state machine of the progress indicator. All I/O
//! (terminal, HTTP) lives outside this crate; these functions compute on plain
//! bytes and are verified.

pub mod chat;
pub mod input;
pub mod json;
pub mod round;
pub mod spinner;
