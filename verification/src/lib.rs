//! A background pipeline that computes, for every top-level outline entry of a
//! document, how many places in the project reference the enclosing code
//! symbol, and publishes that count as an inline annotation next to the entry.
//!
//! The pipeline is pure: the editor, the symbol source and the reference query
//! service are abstracted as plain values handed in by the caller.  The
//! controller owns a monotonic refresh revision; asynchronous results carry the
//! revision they were computed under and are discarded whenever the controller
//! has moved past it, so a newer refresh always wins over a stale one.

pub mod annotations;
pub mod controller;
pub mod resolve;
pub mod sink;
pub mod symbols;
