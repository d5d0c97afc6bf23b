//! An in-process store for short-lived shared links.
//!
//! A client hands in a piece of text and gets back a short random identifier;
//! whoever presents that identifier before the entry's time to live has run out
//! gets the text back. The store is bounded: it never holds more than
//! [`config::MAX_ENTRIES`] entries, and a periodic sweep drops what has expired.
//!
//! Time never comes from a clock in this crate. Every operation that depends on
//! the time takes `now`, a count of milliseconds since an origin that the caller
//! picks once and keeps (the start of the process, say). That keeps every
//! operation a function of its arguments, and lets a caller replay any schedule.
//!
//! * [`config`]: the constants the crate is built around.
//! * [`entry`]: what is stored under an identifier.
//! * [`error`]: the failures the crate reports.
//! * [`model`]: the mathematical model that all contracts are stated over.
//! * [`store`]: the bounded store itself.
//! * [`ident`]: drawing identifiers that the store does not hold yet.
//! * [`service`]: create, read, redeem and delete, as a transport layer calls them.
//! * [`sweeper`]: the decisions of the periodic sweep.
//! * [`laws`]: properties of the model that relate several operations.

pub mod config;
pub mod entry;
pub mod error;
pub mod ident;
pub mod laws;
pub mod model;
pub mod service;
pub mod store;
pub mod sweeper;
