//! Verified core of a push-to-talk dictation pipeline.
//!
//! The library covers the logic of the capture-to-transcription pipeline:
//! the session assembler state machine, the signal preprocessor that turns
//! raw interleaved samples into a canonical mono PCM container, the FIFO
//! processing queue, the transcription gateway's request building and
//! response classification, and the outcome dispatcher that turns each
//! transcription result into exactly one terminal action.
//!
//! Audio samples are carried as fixed-point values: an `i32` holding the
//! amplitude scaled by `FULL_SCALE` (so `FULL_SCALE` stands for +1.0).
//! The unverified shell converts the capture device's native format to
//! this representation at the boundary.

pub mod config;
pub mod devices;
pub mod dispatch;
pub mod gateway;
pub mod history;
pub mod hotkey;
pub mod inject;
pub mod num;
pub mod processor;
pub mod queue;
pub mod recorder;
pub mod session;
pub mod signal;
pub mod stats;
pub mod text;
pub mod ui;
pub mod version;
pub mod wav;
