//! Snippet text-expansion engine.
//!
//! The library contains the verified core of a desktop text expander: a
//! bounded rolling buffer of recently typed characters, suffix matching of
//! trigger keywords, a small placeholder template language with attributes
//! and modifiers, date shifting and formatting for date placeholders, the
//! decision logic of the expansion orchestrator, and the clipboard borrow
//! protocol used when expansions must go through the system clipboard.
//!
//! Everything that touches the operating system (raw keyboard capture,
//! synthetic input injection, the system clipboard, the snippet database)
//! lives outside the library and exchanges plain values with it.

pub mod chars;
pub mod template;
pub mod modifiers;
pub mod datetime;
pub mod snippet;
pub mod resolve;
pub mod engine;
pub mod keys;
pub mod clipboard;
pub mod records;
