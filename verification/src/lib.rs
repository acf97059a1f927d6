//! Key-event buffering and session segmentation.
//!
//! A key press arrives as an identifier with an optional textual name; it is
//! rendered as a display token and appended, behind a timing-chosen separator,
//! to an in-memory session buffer.  A periodic writer drains the buffer and
//! routes the text to a per-window log location derived from the focused
//! window's title.  Everything here is pure computation over plain values:
//! the OS input hook, the clock, and the filesystem live with the caller.

pub mod label;
pub mod session;
pub mod text;
pub mod token;
