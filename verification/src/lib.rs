//! A verified processing-pipeline engine: a silence-removal audio analyzer
//! that trims low-energy regions from a recorded sample buffer, and a text
//! post-processing pipeline that applies an ordered sequence of transform
//! units — LLM prompts and literal or regex replacements — to a string,
//! merging consecutive compatible prompts into a single external call.
//!
//! The engine is pure and stepwise: external calls (the completion service,
//! the clock, file and network I/O) stay with the caller, which drives the
//! execution state machine in `pipeline` and feeds each response back in.

pub mod audio;
pub mod config;
pub mod error;
pub mod hotkey;
pub mod keyboard_recorder;
pub mod logger;
pub mod notifications;
pub mod pipeline;
pub mod text;
pub mod time;
pub mod transcription;
pub mod tray;
pub mod ui;
