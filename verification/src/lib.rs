//! Core of a simulated, browser-style terminal: a bounded scrollback buffer
//! with Unicode-safe line wrapping and clamped scrolling, a command history
//! with deduplication, an input-line state machine, and a total command
//! dispatcher over a fixed table of canned handlers.
//!
//! Rendering, keyboard events and timing live outside this crate; the library
//! only manipulates plain values and exposes the state a renderer needs.

pub mod text;
pub mod line_buffer;
pub mod input;
pub mod animator;
pub mod ascii_art;
pub mod commands;
