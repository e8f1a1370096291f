//! Terminal input helpers: a line editor with Emacs-like shortcuts, and
//! selectors for a yes/no answer, an item of a list, and a date and time.
//!
//! Every component is a state machine fed one key at a time. What the terminal
//! should show is handed back as plain instructions, so the state machines do
//! no I/O of their own.

pub mod key;
pub mod calendar;
pub mod readline;
pub mod selector;
