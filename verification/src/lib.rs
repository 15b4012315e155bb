//! Workspace manager for a terminal multiplexer: captures the topology of
//! sessions (windows, panes, working directories, layouts, startup commands)
//! into a durable descriptor, merges that descriptor with the live session
//! set, and replays it as a sequence of multiplexer commands. Also keeps a
//! most-recently-used rotation over session names and a pane state machine
//! that decides how to surface a second session next to the current window.
//!
//! All multiplexer and file input/output lives outside this crate; the
//! library computes plans, decisions and file contents from plain values.

use vstd::prelude::*;

pub mod bookmarks;
pub mod codec;
pub mod commands;
pub mod config;
pub mod model;
pub mod numtext;
pub mod recent;
pub mod session;
pub mod sessions;
pub mod utils;
pub mod window;

verus! {

/// True when every character of the string is an ASCII digit; the empty
/// string counts as numeric. Purely-numeric session names are reserved by
/// the multiplexer for transient sessions and are excluded from persistence
/// and restoration.
pub open spec fn spec_is_numeric(s: Seq<char>) -> bool {
    forall|i: int| 0 <= i < s.len() ==> '0' <= #[trigger] s[i] <= '9'
}

} // verus!
