//! Input-side state: the navigable command history, the simple trailing line
//! store used by the canvas-free renderer path, and the keystroke state
//! machine with tab-completion decisions.

pub mod history;
pub mod autoscroll;
pub mod keys;
