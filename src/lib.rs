//! A file-sync daemon's core: the wire protocol between client and daemon,
//! the registry of tracked paths with its durable form, the decisions of the
//! command dispatcher and the correlation of file-change events with tracked
//! paths.
use vstd::prelude::*;

pub mod codec;
pub mod text;
pub mod protocol;
pub mod registry;
pub mod watcher;
pub mod daemon;
pub mod client;

verus! {

} // verus!
